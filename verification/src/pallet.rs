//! The four operations on pools: create, swap, lock and unlock.

use crate::math::{
    lemma_mul_div_bound, lemma_product_fits, lock_counterpart, lock_shares, mul_div_floor,
    reserve_after_swap, swap_output, unlock_part,
};
use crate::pool_id::{pool_id, pool_id_of};
use crate::registry::LPPairs;
use crate::staged::{planned, Commit, Plan, Staged};
use crate::types::{AccountId, AssetId, AssetIdHash, Balance, Error, Event, LedgerCall, Pair};
use vstd::prelude::*;

verus! {

/// What a deployment of the pools fixes once and for all.
#[derive(Clone, Copy, Debug, PartialEq, Eq)]
pub struct Config {
    /// The account that holds the funds of every pool.
    pub dex_addr: AccountId,
    /// The minimum balance with which the share token of a pool is registered.
    pub lp_min_balance: Balance,
    /// The hash by which the ids of pools are derived.
    pub hash_fn: AssetIdHash,
}

/// The pool engine.
#[derive(Clone, Copy, Debug, PartialEq, Eq)]
pub struct Pallet {
    pub config: Config,
}

impl Pallet {
    /// The engine of a deployment.
    pub fn new(config: Config) -> (pallet: Pallet)
        ensures
            pallet.config == config,
    {
        Pallet { config }
    }

    /// A transfer from `who` into the pools' account.
    pub open spec fn pay_in(self, who: AccountId, asset: AssetId, amount: Balance) -> LedgerCall {
        LedgerCall::Transfer { from: who, to: self.config.dex_addr, asset, amount }
    }

    /// A transfer from the pools' account to `who`.
    pub open spec fn pay_out(self, who: AccountId, asset: AssetId, amount: Balance) -> LedgerCall {
        LedgerCall::Transfer { from: self.config.dex_addr, to: who, asset, amount }
    }

    /// The id of the pool over `x` and `y`, which is also the id of the pool's
    /// share token: the first four bytes of the digest, under the hash of
    /// this deployment, of the pair with the smaller id first, read low byte
    /// first. The order in which the two assets are given makes no
    /// difference. That two pairs never get the same id rests on the hash and
    /// is not proved; an operation that finds another pair's record under an
    /// id treats the pool as absent.
    pub fn lp_token(&self, x: AssetId, y: AssetId) -> (id: AssetId)
        ensures
            id == pool_id(self.config.hash_fn, x, y),
            id == pool_id(self.config.hash_fn, y, x),
    {
        pool_id_of(self.config.hash_fn, x, y)
    }

    /// What [`Pallet::swap`] decides.
    ///
    /// With `x` the reserve of `from_id` and `y` the reserve of `to_id`, the
    /// pool keeps `x * y / (x + from_balance)` of `to_id`, rounded down, and
    /// pays out the rest of `y`.
    pub open spec fn swap_plan(
        self,
        pools: Map<AssetId, Pair>,
        who: AccountId,
        from_id: AssetId,
        from_balance: Balance,
        to_id: AssetId,
    ) -> Result<Plan, Error> {
        let lp_id = pool_id(self.config.hash_fn, from_id, to_id);
        if !pools.contains_key(lp_id) || !pools[lp_id].holds(from_id, to_id) {
            Err(Error::NoLiquidity)
        } else {
            let pair = pools[lp_id];
            let x = pair.reserve(from_id);
            let y = pair.reserve(to_id);
            if x + from_balance > Balance::MAX {
                Ok(
                    Plan {
                        calls: seq![self.pay_in(who, from_id, from_balance)],
                        funding: 1,
                        verdict: Err(Error::Overflow),
                        base: pools,
                        hash: self.config.hash_fn,
                    },
                )
            } else {
                let new_x = (x + from_balance) as Balance;
                let new_y = reserve_after_swap(x as nat, y as nat, from_balance as nat) as Balance;
                let dy = swap_output(x as nat, y as nat, from_balance as nat) as Balance;
                Ok(
                    Plan {
                        calls: seq![
                            self.pay_in(who, from_id, from_balance),
                            self.pay_out(who, to_id, dy),
                        ],
                        funding: 1,
                        verdict: Ok(
                            Commit {
                                lp_id,
                                pair: pair.with_reserve(from_id, new_x).with_reserve(to_id, new_y),
                                event: Event::Swapped {
                                    who,
                                    from: (from_id, from_balance),
                                    to: (to_id, dy),
                                },
                            },
                        ),
                        base: pools,
                        hash: self.config.hash_fn,
                    },
                )
            }
        }
    }

    /// Trades `from_balance` of `from_id` for `to_id` at the pool's
    /// constant-product price.
    ///
    /// Fails with [`Error::NoLiquidity`] if no pool over the two assets is
    /// registered. Otherwise the plan first takes in the caller's payment and
    /// then, unless the pool's reserve of `from_id` would exceed
    /// [`Balance::MAX`], pays out what the rule allots.
    pub fn swap(
        &self,
        pools: &LPPairs,
        who: AccountId,
        from_id: AssetId,
        from_balance: Balance,
        to_id: AssetId,
    ) -> (staged: Result<Staged, Error>)
        requires
            pools.wf(self.config.hash_fn),
            from_balance > 0,
        ensures
            planned(staged) == self.swap_plan(pools@, who, from_id, from_balance, to_id),
            staged matches Ok(s) ==> s@.wf(),
    {
        let lp_id = self.lp_token(from_id, to_id);
        let pair = match pools.get(lp_id) {
            Some(pair) => pair,
            None => {
                return Err(Error::NoLiquidity);
            },
        };
        if !pair.is_over(from_id, to_id) {
            return Err(Error::NoLiquidity);
        }
        let x = pair.reserve_of(from_id);
        let y = pair.reserve_of(to_id);
        let dex = self.config.dex_addr;
        let mut calls: Vec<LedgerCall> = Vec::new();
        calls.push(LedgerCall::Transfer { from: who, to: dex, asset: from_id, amount: from_balance });
        let new_x = match x.checked_add(from_balance) {
            Some(new_x) => new_x,
            None => {
                assert(calls@ =~= seq![self.pay_in(who, from_id, from_balance)]);
                return Ok(Staged::new(calls, 1, Err(Error::Overflow), Ghost(pools@), Ghost(self.config.hash_fn)));
            },
        };
        proof {
            lemma_mul_div_bound(x as nat, y as nat, new_x as nat);
        }
        let new_y = match mul_div_floor(x, y, new_x) {
            Some(new_y) => new_y,
            None => vstd::pervasive::unreached(),
        };
        let dy = y - new_y;
        calls.push(LedgerCall::Transfer { from: dex, to: who, asset: to_id, amount: dy });
        assert(calls@ =~= seq![
            self.pay_in(who, from_id, from_balance),
            self.pay_out(who, to_id, dy),
        ]);
        let commit = Commit {
            lp_id,
            pair: pair.set_reserve(from_id, new_x).set_reserve(to_id, new_y),
            event: Event::Swapped { who, from: (from_id, from_balance), to: (to_id, dy) },
        };
        Ok(Staged::new(calls, 1, Ok(commit), Ghost(pools@), Ghost(self.config.hash_fn)))
    }

    /// What [`Pallet::create_lp`] decides.
    ///
    /// The first shares of a pool number `x_balance * y_balance`.
    pub open spec fn create_lp_plan(
        self,
        pools: Map<AssetId, Pair>,
        who: AccountId,
        x_id: AssetId,
        x_balance: Balance,
        y_id: AssetId,
        y_balance: Balance,
    ) -> Result<Plan, Error> {
        let lp_id = pool_id(self.config.hash_fn, x_id, y_id);
        if pools.contains_key(lp_id) {
            Err(Error::LiquidityAlreadyExists)
        } else if x_balance * y_balance > Balance::MAX {
            Ok(
                Plan {
                    calls: seq![
                        self.pay_in(who, x_id, x_balance),
                        self.pay_in(who, y_id, y_balance),
                    ],
                    funding: 2,
                    verdict: Err(Error::Overflow),
                    base: pools,
                    hash: self.config.hash_fn,
                },
            )
        } else {
            let shares = (x_balance * y_balance) as Balance;
            Ok(
                Plan {
                    calls: seq![
                        self.pay_in(who, x_id, x_balance),
                        self.pay_in(who, y_id, y_balance),
                        LedgerCall::CreateAsset {
                            asset: lp_id,
                            owner: self.config.dex_addr,
                            min_balance: self.config.lp_min_balance,
                        },
                        LedgerCall::Mint { asset: lp_id, amount: shares, to: who },
                    ],
                    funding: 2,
                    verdict: Ok(
                        Commit {
                            lp_id,
                            pair: Pair::of(x_id, x_balance, y_id, y_balance),
                            event: Event::LPMinted {
                                who,
                                x: (x_id, x_balance),
                                y: (y_id, y_balance),
                                lp: (lp_id, shares),
                            },
                        },
                    ),
                    base: pools,
                    hash: self.config.hash_fn,
                },
            )
        }
    }

    /// Opens the pool over `x_id` and `y_id` with the given reserves.
    ///
    /// Fails with [`Error::LiquidityAlreadyExists`] if a pool is registered
    /// under the pair's id. Otherwise the plan takes in both amounts and then,
    /// unless the number of first shares would exceed [`Balance::MAX`],
    /// registers the share token and issues the shares to the caller.
    pub fn create_lp(
        &self,
        pools: &LPPairs,
        who: AccountId,
        x_id: AssetId,
        x_balance: Balance,
        y_id: AssetId,
        y_balance: Balance,
    ) -> (staged: Result<Staged, Error>)
        requires
            pools.wf(self.config.hash_fn),
            x_id != y_id,
            x_balance > 0,
            y_balance > 0,
        ensures
            planned(staged) == self.create_lp_plan(
                pools@,
                who,
                x_id,
                x_balance,
                y_id,
                y_balance,
            ),
            staged matches Ok(s) ==> s@.wf(),
    {
        let lp_id = self.lp_token(x_id, y_id);
        if pools.contains_key(lp_id) {
            return Err(Error::LiquidityAlreadyExists);
        }
        let dex = self.config.dex_addr;
        let mut calls: Vec<LedgerCall> = Vec::new();
        calls.push(LedgerCall::Transfer { from: who, to: dex, asset: x_id, amount: x_balance });
        calls.push(LedgerCall::Transfer { from: who, to: dex, asset: y_id, amount: y_balance });
        proof {
            lemma_product_fits(x_balance, y_balance);
        }
        let product: u128 = (x_balance as u128) * (y_balance as u128);
        if product > Balance::MAX as u128 {
            assert(calls@ =~= seq![
                self.pay_in(who, x_id, x_balance),
                self.pay_in(who, y_id, y_balance),
            ]);
            return Ok(Staged::new(calls, 2, Err(Error::Overflow), Ghost(pools@), Ghost(self.config.hash_fn)));
        }
        let shares = product as Balance;
        calls.push(
            LedgerCall::CreateAsset {
                asset: lp_id,
                owner: dex,
                min_balance: self.config.lp_min_balance,
            },
        );
        calls.push(LedgerCall::Mint { asset: lp_id, amount: shares, to: who });
        assert(calls@ =~= seq![
            self.pay_in(who, x_id, x_balance),
            self.pay_in(who, y_id, y_balance),
            LedgerCall::CreateAsset {
                asset: lp_id,
                owner: self.config.dex_addr,
                min_balance: self.config.lp_min_balance,
            },
            LedgerCall::Mint { asset: lp_id, amount: shares, to: who },
        ]);
        let commit = Commit {
            lp_id,
            pair: Pair::new(x_id, x_balance, y_id, y_balance),
            event: Event::LPMinted {
                who,
                x: (x_id, x_balance),
                y: (y_id, y_balance),
                lp: (lp_id, shares),
            },
        };
        Ok(Staged::new(calls, 2, Ok(commit), Ghost(pools@), Ghost(self.config.hash_fn)))
    }

    /// What [`Pallet::lock`] decides.
    ///
    /// With `x` and `y` the reserves of `x_id` and `y_id`, the caller adds
    /// `x_balance * y / x` of `y_id` and receives `lp_supply * x_balance / x`
    /// shares, both rounded down.
    pub open spec fn lock_plan(
        self,
        pools: Map<AssetId, Pair>,
        lp_supply: Balance,
        who: AccountId,
        x_id: AssetId,
        x_balance: Balance,
        y_id: AssetId,
    ) -> Result<Plan, Error> {
        let lp_id = pool_id(self.config.hash_fn, x_id, y_id);
        if !pools.contains_key(lp_id) || !pools[lp_id].holds(x_id, y_id) || pools[lp_id].reserve(
            x_id,
        ) == 0 {
            Err(Error::NoLiquidity)
        } else {
            let pair = pools[lp_id];
            let x = pair.reserve(x_id);
            let y = pair.reserve(y_id);
            let dy = lock_counterpart(x as nat, y as nat, x_balance as nat);
            let shares = lock_shares(x as nat, lp_supply as nat, x_balance as nat);
            if dy > Balance::MAX {
                Err(Error::Overflow)
            } else if x + x_balance > Balance::MAX || y + dy > Balance::MAX || lp_supply + shares
                > Balance::MAX {
                Ok(
                    Plan {
                        calls: seq![
                            self.pay_in(who, x_id, x_balance),
                            self.pay_in(who, y_id, dy as Balance),
                        ],
                        funding: 2,
                        verdict: Err(Error::Overflow),
                        base: pools,
                        hash: self.config.hash_fn,
                    },
                )
            } else {
                Ok(
                    Plan {
                        calls: seq![
                            self.pay_in(who, x_id, x_balance),
                            self.pay_in(who, y_id, dy as Balance),
                            LedgerCall::Mint { asset: lp_id, amount: shares as Balance, to: who },
                        ],
                        funding: 2,
                        verdict: Ok(
                            Commit {
                                lp_id,
                                pair: pair.with_reserve(x_id, (x + x_balance) as Balance).with_reserve(
                                    y_id,
                                    (y + dy) as Balance,
                                ),
                                event: Event::Locked {
                                    who,
                                    x: (x_id, x_balance),
                                    y: (y_id, dy as Balance),
                                    lp: (lp_id, shares as Balance),
                                },
                            },
                        ),
                        base: pools,
                        hash: self.config.hash_fn,
                    },
                )
            }
        }
    }

    /// Adds `x_balance` of `x_id` to the pool over `x_id` and `y_id`, together
    /// with as much of `y_id` as keeps the ratio of the reserves. `lp_supply`
    /// is the number of the pool's shares that the ledger reports.
    ///
    /// Fails with [`Error::NoLiquidity`] if no pool over the two assets is
    /// registered or the pool holds nothing of `x_id`, and with
    /// [`Error::Overflow`] if the amount of `y_id` would exceed
    /// [`Balance::MAX`], so that no transfer of it can be asked for.
    /// Otherwise the plan takes in both amounts and then, unless a new
    /// reserve or the new number of shares would exceed [`Balance::MAX`],
    /// issues the shares to the caller.
    pub fn lock(
        &self,
        pools: &LPPairs,
        lp_supply: Balance,
        who: AccountId,
        x_id: AssetId,
        x_balance: Balance,
        y_id: AssetId,
    ) -> (staged: Result<Staged, Error>)
        requires
            pools.wf(self.config.hash_fn),
            x_balance > 0,
        ensures
            planned(staged) == self.lock_plan(pools@, lp_supply, who, x_id, x_balance, y_id),
            staged matches Ok(s) ==> s@.wf(),
    {
        let lp_id = self.lp_token(x_id, y_id);
        let pair = match pools.get(lp_id) {
            Some(pair) => pair,
            None => {
                return Err(Error::NoLiquidity);
            },
        };
        if !pair.is_over(x_id, y_id) {
            return Err(Error::NoLiquidity);
        }
        let x = pair.reserve_of(x_id);
        let y = pair.reserve_of(y_id);
        if x == 0 {
            return Err(Error::NoLiquidity);
        }
        let dy = match mul_div_floor(x_balance, y, x) {
            Some(dy) => dy,
            None => {
                return Err(Error::Overflow);
            },
        };
        let dex = self.config.dex_addr;
        let mut calls: Vec<LedgerCall> = Vec::new();
        calls.push(LedgerCall::Transfer { from: who, to: dex, asset: x_id, amount: x_balance });
        calls.push(LedgerCall::Transfer { from: who, to: dex, asset: y_id, amount: dy });
        assert(calls@ =~= seq![self.pay_in(who, x_id, x_balance), self.pay_in(who, y_id, dy)]);
        let booked = match (x.checked_add(x_balance), y.checked_add(dy)) {
            (Some(new_x), Some(new_y)) => match mul_div_floor(lp_supply, x_balance, x) {
                Some(shares) => if lp_supply.checked_add(shares).is_some() {
                    Some((new_x, new_y, shares))
                } else {
                    None
                },
                None => None,
            },
            _ => None,
        };
        let (new_x, new_y, shares) = match booked {
            Some(booked) => booked,
            None => {
                return Ok(Staged::new(calls, 2, Err(Error::Overflow), Ghost(pools@), Ghost(self.config.hash_fn)));
            },
        };
        calls.push(LedgerCall::Mint { asset: lp_id, amount: shares, to: who });
        assert(calls@ =~= seq![
            self.pay_in(who, x_id, x_balance),
            self.pay_in(who, y_id, dy),
            LedgerCall::Mint { asset: lp_id, amount: shares, to: who },
        ]);
        let commit = Commit {
            lp_id,
            pair: pair.set_reserve(x_id, new_x).set_reserve(y_id, new_y),
            event: Event::Locked { who, x: (x_id, x_balance), y: (y_id, dy), lp: (lp_id, shares) },
        };
        Ok(Staged::new(calls, 2, Ok(commit), Ghost(pools@), Ghost(self.config.hash_fn)))
    }

    /// What [`Pallet::unlock`] decides.
    ///
    /// The caller receives `reserve * lp_balance / lp_supply` of each reserve,
    /// rounded down, and the pool's record is reduced by what is paid out.
    pub open spec fn unlock_plan(
        self,
        pools: Map<AssetId, Pair>,
        lp_supply: Balance,
        who: AccountId,
        lp: (AssetId, Balance),
    ) -> Result<Plan, Error> {
        let (lp_id, lp_balance) = lp;
        if !pools.contains_key(lp_id) {
            Err(Error::NoLiquidity)
        } else if lp_balance > lp_supply {
            Err(Error::NotEnoughTokens)
        } else {
            let pair = pools[lp_id];
            let dx = unlock_part(pair.x_balance as nat, lp_balance as nat, lp_supply as nat);
            let dy = unlock_part(pair.y_balance as nat, lp_balance as nat, lp_supply as nat);
            Ok(
                Plan {
                    calls: seq![
                        LedgerCall::Burn { asset: lp_id, amount: lp_balance, from: who },
                        self.pay_out(who, pair.x_id, dx as Balance),
                        self.pay_out(who, pair.y_id, dy as Balance),
                    ],
                    funding: 1,
                    verdict: Ok(
                        Commit {
                            lp_id,
                            pair: Pair {
                                x_id: pair.x_id,
                                x_balance: (pair.x_balance - dx) as Balance,
                                y_id: pair.y_id,
                                y_balance: (pair.y_balance - dy) as Balance,
                            },
                            event: Event::Unlocked {
                                who,
                                x: (pair.x_id, dx as Balance),
                                y: (pair.y_id, dy as Balance),
                                lp,
                            },
                        },
                    ),
                    base: pools,
                    hash: self.config.hash_fn,
                },
            )
        }
    }

    /// Gives up `lp.1` shares of the pool `lp.0` for the part of both reserves
    /// that they stand for. `lp_supply` is the number of the pool's shares
    /// that the ledger reports.
    ///
    /// Fails with [`Error::NoLiquidity`] if no pool is registered under the
    /// id, and with [`Error::NotEnoughTokens`] if more shares are given up
    /// than exist.
    pub fn unlock(
        &self,
        pools: &LPPairs,
        lp_supply: Balance,
        who: AccountId,
        lp: (AssetId, Balance),
    ) -> (staged: Result<Staged, Error>)
        requires
            pools.wf(self.config.hash_fn),
            lp.1 > 0,
        ensures
            planned(staged) == self.unlock_plan(pools@, lp_supply, who, lp),
            staged matches Ok(s) ==> s@.wf(),
    {
        let (lp_id, lp_balance) = lp;
        let pair = match pools.get(lp_id) {
            Some(pair) => pair,
            None => {
                return Err(Error::NoLiquidity);
            },
        };
        if lp_balance > lp_supply {
            return Err(Error::NotEnoughTokens);
        }
        proof {
            lemma_mul_div_bound(lp_balance as nat, pair.x_balance as nat, lp_supply as nat);
            lemma_mul_div_bound(lp_balance as nat, pair.y_balance as nat, lp_supply as nat);
        }
        let dx = match mul_div_floor(pair.x_balance, lp_balance, lp_supply) {
            Some(dx) => dx,
            None => vstd::pervasive::unreached(),
        };
        let dy = match mul_div_floor(pair.y_balance, lp_balance, lp_supply) {
            Some(dy) => dy,
            None => vstd::pervasive::unreached(),
        };
        let dex = self.config.dex_addr;
        let mut calls: Vec<LedgerCall> = Vec::new();
        calls.push(LedgerCall::Burn { asset: lp_id, amount: lp_balance, from: who });
        calls.push(LedgerCall::Transfer { from: dex, to: who, asset: pair.x_id, amount: dx });
        calls.push(LedgerCall::Transfer { from: dex, to: who, asset: pair.y_id, amount: dy });
        assert(calls@ =~= seq![
            LedgerCall::Burn { asset: lp_id, amount: lp_balance, from: who },
            self.pay_out(who, pair.x_id, dx),
            self.pay_out(who, pair.y_id, dy),
        ]);
        let commit = Commit {
            lp_id,
            pair: Pair {
                x_id: pair.x_id,
                x_balance: pair.x_balance - dx,
                y_id: pair.y_id,
                y_balance: pair.y_balance - dy,
            },
            event: Event::Unlocked { who, x: (pair.x_id, dx), y: (pair.y_id, dy), lp },
        };
        Ok(Staged::new(calls, 1, Ok(commit), Ghost(pools@), Ghost(self.config.hash_fn)))
    }
}

} // verus!
