//! Whole-number arithmetic of the constant-product rule.
//!
//! Every quotient is rounded down. Products are formed in full width, so a
//! result is exact whenever it fits a [`Balance`].

use crate::types::Balance;
use vstd::prelude::*;

verus! {

/// `a * b / d`, rounded down; zero where `d` is zero.
pub open spec fn mul_div(a: nat, b: nat, d: nat) -> nat {
    if d == 0 {
        0
    } else {
        (a * b) / d
    }
}

/// What remains of the reserve `y` after `a` is paid into the reserve `x`:
/// the largest reserve whose product with `x + a` does not exceed `x * y`.
pub open spec fn reserve_after_swap(x: nat, y: nat, a: nat) -> nat {
    mul_div(x, y, x + a)
}

/// What a trader receives for paying `a` into the reserve `x` of a pool whose
/// other reserve is `y`.
pub open spec fn swap_output(x: nat, y: nat, a: nat) -> nat {
    (y - reserve_after_swap(x, y, a)) as nat
}

/// What must be added to the reserve `y` along with `a` to the reserve `x` to
/// keep the ratio of the two.
pub open spec fn lock_counterpart(x: nat, y: nat, a: nat) -> nat {
    mul_div(a, y, x)
}

/// The shares issued for adding `a` to the reserve `x` while `supply` shares
/// exist.
pub open spec fn lock_shares(x: nat, supply: nat, a: nat) -> nat {
    mul_div(supply, a, x)
}

/// The part of `reserve` that `shares` out of `supply` shares stand for.
pub open spec fn unlock_part(reserve: nat, shares: nat, supply: nat) -> nat {
    mul_div(reserve, shares, supply)
}

/// The product of two balances fits 128 bits.
pub proof fn lemma_product_fits(a: Balance, b: Balance)
    ensures
        a * b <= u128::MAX,
{
    assert(a * b <= 0xffff_ffff_ffff_ffff * 0xffff_ffff_ffff_ffff) by (nonlinear_arith)
        requires
            a <= 0xffff_ffff_ffff_ffff,
            b <= 0xffff_ffff_ffff_ffff,
    ;
}

/// A quotient does not exceed a factor of its dividend that the divisor
/// covers: `a * b / d <= b` when `a <= d`.
pub proof fn lemma_mul_div_bound(a: nat, b: nat, d: nat)
    requires
        a <= d,
    ensures
        mul_div(a, b, d) <= b,
{
    if d > 0 {
        assert((a * b) / d <= b) by (nonlinear_arith)
            requires
                0 < d,
                a <= d,
        ;
    }
}

/// `a * b / d`, rounded down, or `None` where that exceeds [`Balance::MAX`].
pub fn mul_div_floor(a: Balance, b: Balance, d: Balance) -> (q: Option<Balance>)
    requires
        d > 0,
    ensures
        q == (if mul_div(a as nat, b as nat, d as nat) <= Balance::MAX {
            Some(mul_div(a as nat, b as nat, d as nat) as Balance)
        } else {
            None
        }),
{
    proof {
        lemma_product_fits(a, b);
    }
    let product: u128 = (a as u128) * (b as u128);
    let quotient: u128 = product / (d as u128);
    if quotient <= Balance::MAX as u128 {
        Some(quotient as Balance)
    } else {
        None
    }
}

/// A quotient rounded down is the largest number whose product with the
/// divisor does not exceed the dividend.
pub proof fn lemma_floor(n: int, d: int, k: int)
    requires
        0 < d,
    ensures
        d * (n / d) <= n < d * (n / d) + d,
        n / d >= k <==> n >= k * d,
{
    vstd::arithmetic::div_mod::lemma_fundamental_div_mod(n, d);
    vstd::arithmetic::div_mod::lemma_mod_bound(n, d);
    let q = n / d;
    let r = n % d;
    assert(q >= k ==> n >= k * d) by (nonlinear_arith)
        requires
            n == d * q + r,
            0 <= r,
            0 < d,
    ;
    assert(n >= k * d ==> q >= k) by (nonlinear_arith)
        requires
            n == d * q + r,
            r < d,
            0 < d,
    ;
}

/// A swap never raises the product of the two reserves, and lowers it by
/// less than the new reserve of the asset paid in.
pub proof fn swap_product_bounds(x: nat, y: nat, a: nat)
    requires
        a > 0,
    ensures
        (x + a) * reserve_after_swap(x, y, a) <= x * y,
        x * y < (x + a) * reserve_after_swap(x, y, a) + (x + a),
        reserve_after_swap(x, y, a) <= y,
{
    lemma_floor((x * y) as int, (x + a) as int, 0);
    lemma_mul_div_bound(x, y, x + a);
}

/// A swap keeps the product of the two reserves where the old product is a
/// multiple of the new reserve of the asset paid in; on every other trade the
/// product falls.
pub proof fn swap_product_kept(x: nat, y: nat, a: nat)
    requires
        a > 0,
    ensures
        (x * y) % (x + a) == 0 <==> (x + a) * reserve_after_swap(x, y, a) >= x * y,
{
    vstd::arithmetic::div_mod::lemma_fundamental_div_mod((x * y) as int, (x + a) as int);
    vstd::arithmetic::div_mod::lemma_mod_bound((x * y) as int, (x + a) as int);
}

/// Locking `a` and at once unlocking the shares received never pays back
/// more than was put in, of either asset.
pub proof fn lock_unlock_pays_no_more(x: nat, y: nat, supply: nat, a: nat)
    requires
        x > 0,
        supply + lock_shares(x, supply, a) > 0,
    ensures
        ({
            let dy = lock_counterpart(x, y, a);
            let shares = lock_shares(x, supply, a);
            &&& unlock_part(x + a, shares, supply + shares) <= a
            &&& unlock_part(y + dy, shares, supply + shares) <= dy
        }),
{
    let dy = lock_counterpart(x, y, a);
    let shares = lock_shares(x, supply, a);
    let total = supply + shares;
    lemma_floor((supply * a) as int, x as int, 0);
    lemma_floor((a * y) as int, x as int, 0);
    assert((x + a) * shares < (a + 1) * total) by (nonlinear_arith)
        requires
            x * shares <= supply * a,
            total == supply + shares,
            total > 0,
    ;
    lemma_floor(((x + a) * shares) as int, total as int, (a + 1) as int);
    assert(((y + dy) * shares) * x < ((dy + 1) * total) * x) by (nonlinear_arith)
        requires
            x * shares <= supply * a,
            a * y < x * dy + x,
            total == supply + shares,
            total > 0,
            x > 0,
    ;
    assert((y + dy) * shares < (dy + 1) * total) by (nonlinear_arith)
        requires
            ((y + dy) * shares) * x < ((dy + 1) * total) * x,
            x > 0,
    ;
    lemma_floor(((y + dy) * shares) as int, total as int, (dy + 1) as int);
}

/// Exactly when locking `a` and at once unlocking the shares received pays
/// back all but at most one unit of each asset.
pub proof fn lock_unlock_loss(x: nat, y: nat, supply: nat, a: nat)
    requires
        x > 0,
        supply + lock_shares(x, supply, a) > 0,
    ensures
        ({
            let dy = lock_counterpart(x, y, a);
            let shares = lock_shares(x, supply, a);
            &&& a <= unlock_part(x + a, shares, supply + shares) + 1 <==> shares * (x + 1)
                >= supply * (a - 1)
            &&& dy <= unlock_part(y + dy, shares, supply + shares) + 1 <==> shares * (y + 1)
                >= supply * (dy - 1)
        }),
{
    let dy = lock_counterpart(x, y, a);
    let shares = lock_shares(x, supply, a);
    let total = supply + shares;
    lemma_floor(((x + a) * shares) as int, total as int, a - 1);
    assert((x + a) * shares >= (a - 1) * total <==> shares * (x + 1) >= supply * (a - 1))
        by (nonlinear_arith)
        requires
            total == supply + shares,
    ;
    lemma_floor(((y + dy) * shares) as int, total as int, dy - 1);
    assert((y + dy) * shares >= (dy - 1) * total <==> shares * (y + 1) >= supply * (dy - 1))
        by (nonlinear_arith)
        requires
            total == supply + shares,
    ;
}

/// Where no share is worth more than one unit of either reserve, locking `a`
/// and at once unlocking the shares received pays back what was put in, less
/// at most one unit of each asset.
pub proof fn lock_unlock_round_trip(x: nat, y: nat, supply: nat, a: nat)
    requires
        a > 0,
        0 < x <= supply,
        y <= supply,
    ensures
        ({
            let dy = lock_counterpart(x, y, a);
            let shares = lock_shares(x, supply, a);
            let back_x = unlock_part(x + a, shares, supply + shares);
            let back_y = unlock_part(y + dy, shares, supply + shares);
            &&& back_x <= a <= back_x + 1
            &&& back_y <= dy <= back_y + 1
        }),
{
    let dy = lock_counterpart(x, y, a);
    let shares = lock_shares(x, supply, a);
    lock_unlock_pays_no_more(x, y, supply, a);
    lock_unlock_loss(x, y, supply, a);
    lemma_floor((supply * a) as int, x as int, 0);
    lemma_floor((a * y) as int, x as int, 0);
    assert(shares * (x + 1) >= supply * (a - 1)) by (nonlinear_arith)
        requires
            supply * a < x * shares + x,
            x <= supply,
    ;
    assert((shares * (y + 1)) * x >= (supply * (dy - 1)) * x) by (nonlinear_arith)
        requires
            supply * a < x * shares + x,
            x * dy <= a * y,
            0 < x <= supply,
            y <= supply,
            a > 0,
    ;
    assert(shares * (y + 1) >= supply * (dy - 1)) by (nonlinear_arith)
        requires
            (shares * (y + 1)) * x >= (supply * (dy - 1)) * x,
            x > 0,
    ;
}

} // verus!
