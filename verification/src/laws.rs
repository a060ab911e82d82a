//! What holds of every operation, proved from the plans that the operations
//! are specified by.

use crate::math::{
    lemma_floor, lemma_mul_div_bound, lock_counterpart, lock_shares, lock_unlock_round_trip,
    reserve_after_swap, swap_product_bounds, swap_product_kept, unlock_part,
};
use crate::pallet::Pallet;
use crate::pool_id::pool_id;
use crate::registry::registry_wf;
use crate::staged::{Outcome, Plan};
use crate::types::{AccountId, AssetId, AssetIdHash, Balance, Error, LedgerCall, Pair};
use vstd::prelude::*;

verus! {

/// The change that one call makes to what `account` holds of `asset` by way
/// of transfer.
pub open spec fn moves(call: LedgerCall, account: AccountId, asset: AssetId) -> int {
    match call {
        LedgerCall::Transfer { from, to, asset: moved, amount } => if moved == asset {
            (if to == account {
                amount as int
            } else {
                0
            }) - (if from == account {
                amount as int
            } else {
                0
            })
        } else {
            0
        },
        _ => 0,
    }
}

/// The change that a run of calls makes to what `account` holds of `asset`
/// by way of transfer.
pub open spec fn moved(calls: Seq<LedgerCall>, account: AccountId, asset: AssetId) -> int
    decreases calls.len(),
{
    if calls.len() == 0 {
        0
    } else {
        moved(calls.drop_last(), account, asset) + moves(calls.last(), account, asset)
    }
}

/// The change that one call makes to the number of units of `asset` that
/// `account` was issued.
pub open spec fn issues(call: LedgerCall, account: AccountId, asset: AssetId) -> int {
    match call {
        LedgerCall::Mint { asset: minted, amount, to } => if minted == asset && to == account {
            amount as int
        } else {
            0
        },
        LedgerCall::Burn { asset: burned, amount, from } => if burned == asset && from == account {
            -(amount as int)
        } else {
            0
        },
        _ => 0,
    }
}

/// The number of units of `asset` that a run of calls issues to `account`,
/// less the number that it destroys.
pub open spec fn issued(calls: Seq<LedgerCall>, account: AccountId, asset: AssetId) -> int
    decreases calls.len(),
{
    if calls.len() == 0 {
        0
    } else {
        issued(calls.drop_last(), account, asset) + issues(calls.last(), account, asset)
    }
}

/// What the pool `id` holds of `asset` by the books of `pools`.
pub open spec fn booked(pools: Map<AssetId, Pair>, id: AssetId, asset: AssetId) -> int {
    if pools.contains_key(id) {
        pools[id].reserve(asset) as int
    } else {
        0
    }
}

/// Whether a plan that `who` set off creates or destroys no value: what the
/// caller pays the pools' account `dex` receives, and the other way round;
/// nobody else pays or receives anything; the pool's record changes by what
/// the pools' account receives; and only the pool's own shares are issued or
/// destroyed, to and from the caller alone.
pub open spec fn conserves(plan: Plan, who: AccountId, dex: AccountId) -> bool {
    &&& forall|asset: AssetId| #[trigger]
        moved(plan.calls, who, asset) + moved(plan.calls, dex, asset) == 0
    &&& forall|other: AccountId, asset: AssetId|
        other != who && other != dex ==> #[trigger] moved(plan.calls, other, asset) == 0
    &&& plan.verdict matches Ok(commit) ==> {
        &&& who != dex ==> forall|asset: AssetId| #[trigger]
            moved(plan.calls, dex, asset) == booked(
                plan.base.insert(commit.lp_id, commit.pair),
                commit.lp_id,
                asset,
            ) - booked(plan.base, commit.lp_id, asset)
        &&& forall|account: AccountId, asset: AssetId|
            account != who || asset != commit.lp_id ==> #[trigger] issued(
                plan.calls,
                account,
                asset,
            ) == 0
    }
}

proof fn lemma_moved_push(
    calls: Seq<LedgerCall>,
    call: LedgerCall,
    account: AccountId,
    asset: AssetId,
)
    ensures
        moved(calls.push(call), account, asset) == moved(calls, account, asset) + moves(
            call,
            account,
            asset,
        ),
        issued(calls.push(call), account, asset) == issued(calls, account, asset) + issues(
            call,
            account,
            asset,
        ),
{
    assert(calls.push(call).drop_last() =~= calls);
}

/// What the call at position `at` moves, if there is one.
spec fn moves_at(calls: Seq<LedgerCall>, at: int, account: AccountId, asset: AssetId) -> int {
    if at < calls.len() {
        moves(calls[at], account, asset)
    } else {
        0
    }
}

/// What the call at position `at` issues, if there is one.
spec fn issues_at(calls: Seq<LedgerCall>, at: int, account: AccountId, asset: AssetId) -> int {
    if at < calls.len() {
        issues(calls[at], account, asset)
    } else {
        0
    }
}

/// The sums over a run of up to four calls, written out call by call.
spec fn summed(calls: Seq<LedgerCall>, account: AccountId, asset: AssetId) -> bool {
    &&& moved(calls, account, asset) == moves_at(calls, 0, account, asset) + moves_at(
        calls,
        1,
        account,
        asset,
    ) + moves_at(calls, 2, account, asset) + moves_at(calls, 3, account, asset)
    &&& issued(calls, account, asset) == issues_at(calls, 0, account, asset) + issues_at(
        calls,
        1,
        account,
        asset,
    ) + issues_at(calls, 2, account, asset) + issues_at(calls, 3, account, asset)
}

proof fn lemma_summed(calls: Seq<LedgerCall>, account: AccountId, asset: AssetId)
    requires
        calls.len() <= 4,
    ensures
        summed(calls, account, asset),
    decreases calls.len(),
{
    if calls.len() > 0 {
        lemma_summed(calls.drop_last(), account, asset);
        lemma_moved_push(calls.drop_last(), calls.last(), account, asset);
        assert(calls.drop_last().push(calls.last()) =~= calls);
    }
}

proof fn lemma_all_summed(calls: Seq<LedgerCall>)
    requires
        calls.len() <= 4,
    ensures
        forall|account: AccountId, asset: AssetId|
            #![trigger moved(calls, account, asset)]
            #![trigger issued(calls, account, asset)]
            summed(calls, account, asset),
{
    assert forall|account: AccountId, asset: AssetId|
        #![trigger moved(calls, account, asset)]
        #![trigger issued(calls, account, asset)]
        summed(calls, account, asset) by {
        lemma_summed(calls, account, asset);
    }
}

/// The id of a pool does not depend on the order in which its two assets are
/// named.
pub proof fn pool_id_is_unordered(hash: AssetIdHash, a: AssetId, b: AssetId)
    ensures
        pool_id(hash, a, b) == pool_id(hash, b, a),
{
}

/// No operation removes a pool: whatever the ledger answers, every pool that
/// was registered before is registered afterwards.
pub proof fn pools_are_kept(plan: Plan, outcome: Outcome, id: AssetId)
    requires
        plan.base.contains_key(id),
    ensures
        plan.registry(outcome).contains_key(id),
{
}

/// An operation that fails leaves the registry as it found it.
pub proof fn failure_leaves_registry(plan: Plan, outcome: Outcome)
    requires
        plan.result(outcome) is Err,
    ensures
        plan.registry(outcome) == plan.base,
{
}

/// Whatever the ledger answers, an operation leaves every record of the
/// registry well formed and under the id of its own two assets.
pub proof fn registry_stays_well_formed(plan: Plan, outcome: Outcome)
    requires
        plan.wf(),
    ensures
        registry_wf(plan.hash, plan.registry(outcome)),
{
}

/// The record with which a pool is created does not depend on the order in
/// which its two assets are named, nor does the id under which it is filed.
pub proof fn create_lp_is_unordered(
    pallet: Pallet,
    pools: Map<AssetId, Pair>,
    who: AccountId,
    x_id: AssetId,
    x_balance: Balance,
    y_id: AssetId,
    y_balance: Balance,
)
    requires
        x_id != y_id,
    ensures
        ({
            let one = pallet.create_lp_plan(pools, who, x_id, x_balance, y_id, y_balance);
            let other = pallet.create_lp_plan(pools, who, y_id, y_balance, x_id, x_balance);
            &&& one is Ok <==> other is Ok
            &&& one is Ok ==> (one->Ok_0.verdict is Ok <==> other->Ok_0.verdict is Ok)
            &&& one is Ok && one->Ok_0.verdict is Ok ==> {
                &&& one->Ok_0.verdict->Ok_0.lp_id == other->Ok_0.verdict->Ok_0.lp_id
                &&& one->Ok_0.verdict->Ok_0.pair == other->Ok_0.verdict->Ok_0.pair
                &&& one->Ok_0.verdict->Ok_0.pair.wf()
            }
        }),
{
}

/// A pool is created with both reserves above zero.
pub proof fn create_lp_fills_both_reserves(
    pallet: Pallet,
    pools: Map<AssetId, Pair>,
    who: AccountId,
    x_id: AssetId,
    x_balance: Balance,
    y_id: AssetId,
    y_balance: Balance,
)
    requires
        x_id != y_id,
        x_balance > 0,
        y_balance > 0,
        pallet.create_lp_plan(pools, who, x_id, x_balance, y_id, y_balance) matches Ok(plan)
            && plan.verdict is Ok,
    ensures
        ({
            let plan = pallet.create_lp_plan(pools, who, x_id, x_balance, y_id, y_balance)->Ok_0;
            let pair = plan.verdict->Ok_0.pair;
            &&& pair.reserve(x_id) == x_balance
            &&& pair.reserve(y_id) == y_balance
            &&& pair.x_balance > 0
            &&& pair.y_balance > 0
        }),
{
}

/// A swap that goes through leaves something of the asset paid out exactly
/// where the product of the two reserves is no less than the new reserve of
/// the asset paid in.
pub proof fn swap_leaves_liquidity(
    pallet: Pallet,
    pools: Map<AssetId, Pair>,
    who: AccountId,
    from_id: AssetId,
    from_balance: Balance,
    to_id: AssetId,
)
    requires
        registry_wf(pallet.config.hash_fn, pools),
        from_balance > 0,
        pallet.swap_plan(pools, who, from_id, from_balance, to_id) matches Ok(plan)
            && plan.verdict is Ok,
    ensures
        ({
            let plan = pallet.swap_plan(pools, who, from_id, from_balance, to_id)->Ok_0;
            let before = pools[pool_id(pallet.config.hash_fn, from_id, to_id)];
            let after = plan.verdict->Ok_0.pair;
            &&& after.reserve(from_id) > 0
            &&& after.reserve(to_id) > 0 <==> before.x_balance * before.y_balance
                >= before.reserve(from_id) + from_balance
        }),
{
    let before = pools[pool_id(pallet.config.hash_fn, from_id, to_id)];
    let x = before.reserve(from_id) as nat;
    let y = before.reserve(to_id) as nat;
    swap_product_bounds(x, y, from_balance as nat);
    lemma_floor((x * y) as int, (x + from_balance) as int, 1);
    assert(x * y == y * x) by (nonlinear_arith);
}

/// Locking lowers neither reserve.
pub proof fn lock_lowers_no_reserve(
    pallet: Pallet,
    pools: Map<AssetId, Pair>,
    lp_supply: Balance,
    who: AccountId,
    x_id: AssetId,
    x_balance: Balance,
    y_id: AssetId,
)
    requires
        registry_wf(pallet.config.hash_fn, pools),
        pallet.lock_plan(pools, lp_supply, who, x_id, x_balance, y_id) matches Ok(plan)
            && plan.verdict is Ok,
    ensures
        ({
            let plan = pallet.lock_plan(pools, lp_supply, who, x_id, x_balance, y_id)->Ok_0;
            let before = pools[pool_id(pallet.config.hash_fn, x_id, y_id)];
            &&& plan.verdict matches Ok(commit) && {
                &&& commit.pair.reserve(x_id) == before.reserve(x_id) + x_balance
                &&& commit.pair.x_balance >= before.x_balance
                &&& commit.pair.y_balance >= before.y_balance
            }
        }),
{
}

/// Unlocking raises neither reserve, and leaves something of a reserve
/// exactly where there was something and fewer shares are given up than
/// exist.
pub proof fn unlock_raises_no_reserve(
    pallet: Pallet,
    pools: Map<AssetId, Pair>,
    lp_supply: Balance,
    who: AccountId,
    lp: (AssetId, Balance),
)
    requires
        lp.1 > 0,
        pallet.unlock_plan(pools, lp_supply, who, lp) is Ok,
    ensures
        ({
            let plan = pallet.unlock_plan(pools, lp_supply, who, lp)->Ok_0;
            let before = pools[lp.0];
            &&& plan.verdict matches Ok(commit) && {
                &&& commit.pair.x_balance <= before.x_balance
                &&& commit.pair.y_balance <= before.y_balance
                &&& commit.pair.x_balance > 0 <==> before.x_balance > 0 && lp.1 < lp_supply
                &&& commit.pair.y_balance > 0 <==> before.y_balance > 0 && lp.1 < lp_supply
            }
        }),
{
    let before = pools[lp.0];
    lemma_unlock_part(before.x_balance as nat, lp.1 as nat, lp_supply as nat);
    lemma_unlock_part(before.y_balance as nat, lp.1 as nat, lp_supply as nat);
}

/// The part of a reserve that shares stand for is no more than the reserve,
/// and all of it only where every share is given up or nothing is there.
proof fn lemma_unlock_part(reserve: nat, shares: nat, supply: nat)
    requires
        0 < shares <= supply,
    ensures
        unlock_part(reserve, shares, supply) <= reserve,
        unlock_part(reserve, shares, supply) < reserve <==> reserve > 0 && shares
            < supply,
{
    let n = (reserve * shares) as int;
    let d = supply as int;
    lemma_floor(n, d, reserve as int);
    lemma_floor(n, d, (reserve + 1) as int);
    assert(n >= reserve * d <==> reserve == 0 || shares >= supply) by (nonlinear_arith)
        requires
            n == reserve * shares,
            d == supply,
            0 < shares <= supply,
    ;
    assert(n < (reserve + 1) * d) by (nonlinear_arith)
        requires
            n == reserve * shares,
            d == supply,
            0 < shares <= supply,
    ;
}

/// Once a pool over two assets has been created, creating a pool over the
/// same two assets again fails with `LiquidityAlreadyExists`, whoever asks,
/// with whatever amounts and in whichever order the assets are named.
pub proof fn create_lp_only_once(
    pallet: Pallet,
    pools: Map<AssetId, Pair>,
    who: AccountId,
    x_id: AssetId,
    x_balance: Balance,
    y_id: AssetId,
    y_balance: Balance,
    outcome: Outcome,
    next_who: AccountId,
    next_x_balance: Balance,
    next_y_balance: Balance,
)
    requires
        pallet.create_lp_plan(pools, who, x_id, x_balance, y_id, y_balance) matches Ok(plan)
            && plan.result(outcome) is Ok,
    ensures
        ({
            let plan = pallet.create_lp_plan(pools, who, x_id, x_balance, y_id, y_balance)->Ok_0;
            let after = plan.registry(outcome);
            &&& pallet.create_lp_plan(after, next_who, x_id, next_x_balance, y_id, next_y_balance)
                == Err::<Plan, Error>(Error::LiquidityAlreadyExists)
            &&& pallet.create_lp_plan(after, next_who, y_id, next_y_balance, x_id, next_x_balance)
                == Err::<Plan, Error>(Error::LiquidityAlreadyExists)
        }),
{
}

/// A swap that goes through adds what was paid in to one reserve, never
/// raises the product of the two reserves, and lowers it by less than the new
/// reserve of the asset paid in.
pub proof fn swap_bounds_product(
    pallet: Pallet,
    pools: Map<AssetId, Pair>,
    who: AccountId,
    from_id: AssetId,
    from_balance: Balance,
    to_id: AssetId,
)
    requires
        registry_wf(pallet.config.hash_fn, pools),
        from_balance > 0,
        pallet.swap_plan(pools, who, from_id, from_balance, to_id) matches Ok(plan)
            && plan.verdict is Ok,
    ensures
        ({
            let plan = pallet.swap_plan(pools, who, from_id, from_balance, to_id)->Ok_0;
            let before = pools[pool_id(pallet.config.hash_fn, from_id, to_id)];
            let after = plan.verdict->Ok_0.pair;
            &&& after.reserve(from_id) == before.reserve(from_id) + from_balance
            &&& after.reserve(to_id) <= before.reserve(to_id)
            &&& after.x_balance * after.y_balance <= before.x_balance * before.y_balance
            &&& before.x_balance * before.y_balance < after.x_balance * after.y_balance
                + after.reserve(from_id)
        }),
{
    let before = pools[pool_id(pallet.config.hash_fn, from_id, to_id)];
    let x = before.reserve(from_id) as nat;
    let y = before.reserve(to_id) as nat;
    swap_product_bounds(x, y, from_balance as nat);
    let new_y = reserve_after_swap(x, y, from_balance as nat);
    assert(x * y == y * x && (x + from_balance) * new_y == new_y * (x + from_balance))
        by (nonlinear_arith);
}

/// A swap that goes through does not lower the product of the two reserves
/// where the old product is a multiple of the new reserve of the asset paid
/// in.
pub proof fn swap_keeps_product(
    pallet: Pallet,
    pools: Map<AssetId, Pair>,
    who: AccountId,
    from_id: AssetId,
    from_balance: Balance,
    to_id: AssetId,
)
    requires
        registry_wf(pallet.config.hash_fn, pools),
        from_balance > 0,
        pallet.swap_plan(pools, who, from_id, from_balance, to_id) matches Ok(plan)
            && plan.verdict is Ok,
        (pools[pool_id(pallet.config.hash_fn, from_id, to_id)].x_balance * pools[pool_id(pallet.config.hash_fn, from_id, to_id)].y_balance) % (
        pools[pool_id(pallet.config.hash_fn, from_id, to_id)].reserve(from_id) + from_balance) == 0,
    ensures
        ({
            let plan = pallet.swap_plan(pools, who, from_id, from_balance, to_id)->Ok_0;
            let before = pools[pool_id(pallet.config.hash_fn, from_id, to_id)];
            let after = plan.verdict->Ok_0.pair;
            after.x_balance * after.y_balance >= before.x_balance * before.y_balance
        }),
{
    let before = pools[pool_id(pallet.config.hash_fn, from_id, to_id)];
    let x = before.reserve(from_id) as nat;
    let y = before.reserve(to_id) as nat;
    swap_product_bounds(x, y, from_balance as nat);
    swap_product_kept(x, y, from_balance as nat);
    let new_y = reserve_after_swap(x, y, from_balance as nat);
    assert(x * y == y * x && (x + from_balance) * new_y == new_y * (x + from_balance))
        by (nonlinear_arith);
}

/// A swap creates and destroys no value.
pub proof fn swap_conserves(
    pallet: Pallet,
    pools: Map<AssetId, Pair>,
    who: AccountId,
    from_id: AssetId,
    from_balance: Balance,
    to_id: AssetId,
)
    requires
        registry_wf(pallet.config.hash_fn, pools),
        pallet.swap_plan(pools, who, from_id, from_balance, to_id) is Ok,
    ensures
        conserves(
            pallet.swap_plan(pools, who, from_id, from_balance, to_id)->Ok_0,
            who,
            pallet.config.dex_addr,
        ),
{
    let plan = pallet.swap_plan(pools, who, from_id, from_balance, to_id)->Ok_0;
    let before = pools[pool_id(pallet.config.hash_fn, from_id, to_id)];
    let x = before.reserve(from_id) as nat;
    lemma_mul_div_bound(x, before.reserve(to_id) as nat, x + from_balance as nat);
    lemma_all_summed(plan.calls);
}

/// Creating a pool creates and destroys no value.
pub proof fn create_lp_conserves(
    pallet: Pallet,
    pools: Map<AssetId, Pair>,
    who: AccountId,
    x_id: AssetId,
    x_balance: Balance,
    y_id: AssetId,
    y_balance: Balance,
)
    requires
        registry_wf(pallet.config.hash_fn, pools),
        x_id != y_id,
        pallet.create_lp_plan(pools, who, x_id, x_balance, y_id, y_balance) is Ok,
    ensures
        conserves(
            pallet.create_lp_plan(pools, who, x_id, x_balance, y_id, y_balance)->Ok_0,
            who,
            pallet.config.dex_addr,
        ),
{
    let plan = pallet.create_lp_plan(pools, who, x_id, x_balance, y_id, y_balance)->Ok_0;
    lemma_all_summed(plan.calls);
}

/// Locking creates and destroys no value.
pub proof fn lock_conserves(
    pallet: Pallet,
    pools: Map<AssetId, Pair>,
    lp_supply: Balance,
    who: AccountId,
    x_id: AssetId,
    x_balance: Balance,
    y_id: AssetId,
)
    requires
        registry_wf(pallet.config.hash_fn, pools),
        pallet.lock_plan(pools, lp_supply, who, x_id, x_balance, y_id) is Ok,
    ensures
        conserves(
            pallet.lock_plan(pools, lp_supply, who, x_id, x_balance, y_id)->Ok_0,
            who,
            pallet.config.dex_addr,
        ),
{
    let plan = pallet.lock_plan(pools, lp_supply, who, x_id, x_balance, y_id)->Ok_0;
    lemma_all_summed(plan.calls);
}

/// Unlocking creates and destroys no value.
pub proof fn unlock_conserves(
    pallet: Pallet,
    pools: Map<AssetId, Pair>,
    lp_supply: Balance,
    who: AccountId,
    lp: (AssetId, Balance),
)
    requires
        registry_wf(pallet.config.hash_fn, pools),
        pallet.unlock_plan(pools, lp_supply, who, lp) is Ok,
    ensures
        conserves(pallet.unlock_plan(pools, lp_supply, who, lp)->Ok_0, who, pallet.config.dex_addr),
{
    let plan = pallet.unlock_plan(pools, lp_supply, who, lp)->Ok_0;
    let pair = pools[lp.0];
    lemma_mul_div_bound(lp.1 as nat, pair.x_balance as nat, lp_supply as nat);
    lemma_mul_div_bound(lp.1 as nat, pair.y_balance as nat, lp_supply as nat);
    lemma_all_summed(plan.calls);
}

/// Where no share is worth more than one unit of either reserve, locking and
/// at once unlocking the shares received leaves each reserve where it was or
/// one unit above, and the caller with what they had or one unit less of
/// each asset.
pub proof fn lock_then_unlock(
    pallet: Pallet,
    pools: Map<AssetId, Pair>,
    lp_supply: Balance,
    who: AccountId,
    x_id: AssetId,
    x_balance: Balance,
    y_id: AssetId,
)
    requires
        registry_wf(pallet.config.hash_fn, pools),
        x_balance > 0,
        who != pallet.config.dex_addr,
        pallet.lock_plan(pools, lp_supply, who, x_id, x_balance, y_id) matches Ok(plan)
            && plan.verdict is Ok,
        pools[pool_id(pallet.config.hash_fn, x_id, y_id)].x_balance <= lp_supply,
        pools[pool_id(pallet.config.hash_fn, x_id, y_id)].y_balance <= lp_supply,
    ensures
        ({
            let lp_id = pool_id(pallet.config.hash_fn, x_id, y_id);
            let before = pools[lp_id];
            let shares = lock_shares(
                before.reserve(x_id) as nat,
                lp_supply as nat,
                x_balance as nat,
            ) as Balance;
            let locked = pallet.lock_plan(pools, lp_supply, who, x_id, x_balance, y_id)->Ok_0;
            let unlocked = pallet.unlock_plan(
                locked.registry(Outcome::Applied),
                (lp_supply + shares) as Balance,
                who,
                (lp_id, shares),
            );
            &&& unlocked matches Ok(plan) && plan.verdict matches Ok(commit) && {
                &&& before.x_balance <= commit.pair.x_balance <= before.x_balance + 1
                &&& before.y_balance <= commit.pair.y_balance <= before.y_balance + 1
                &&& -1 <= moved(locked.calls, who, x_id) + moved(plan.calls, who, x_id) <= 0
                &&& -1 <= moved(locked.calls, who, y_id) + moved(plan.calls, who, y_id) <= 0
            }
        }),
{
    let lp_id = pool_id(pallet.config.hash_fn, x_id, y_id);
    let before = pools[lp_id];
    let x = before.reserve(x_id) as nat;
    let y = before.reserve(y_id) as nat;
    let a = x_balance as nat;
    let supply = lp_supply as nat;
    let dy = lock_counterpart(x, y, a);
    let shares = lock_shares(x, supply, a);
    lock_unlock_round_trip(x, y, supply, a);
    let locked = pallet.lock_plan(pools, lp_supply, who, x_id, x_balance, y_id)->Ok_0;
    let plan = pallet.unlock_plan(
        locked.registry(Outcome::Applied),
        (lp_supply + shares) as Balance,
        who,
        (lp_id, shares as Balance),
    )->Ok_0;
    lemma_all_summed(locked.calls);
    lemma_all_summed(plan.calls);
}

} // verus!
