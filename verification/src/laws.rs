//! The laws of the engine, proved about the transition functions of
//! [`crate::model`].
//!
//! Each operation's contract already pins its answer and its new state to
//! one transition function; the lemmas here state what those transitions
//! guarantee across calls: conservation of value, the constant-product
//! bound of the pricing rule, and that a withdrawal undoes a deposit.

use crate::errors::Error;
use crate::model::{
    add_liquidity_outcome, amt, bal, bootstrap_outcome, lower2_ok, matched_amount, quote_outcome,
    remove_liquidity_outcome, swap_outcome, DexView,
};
use vstd::arithmetic::div_mod::{
    lemma_fundamental_div_mod, lemma_fundamental_div_mod_converse, lemma_mod_bound,
};
use vstd::prelude::*;

verus! {

/// Conservation under a first deposit: every reserve grows by exactly
/// what the pool's custodial account receives. Applied operation after
/// operation, it says that a reserve always equals the net amount
/// transferred into custody over the pool's lifetime.
pub proof fn lemma_bootstrap_conserves(
    s: DexView,
    pool_acct: u64,
    caller: u64,
    asset_a: u64,
    amount_a: u128,
    asset_b: u64,
    amount_b: u128,
    post: DexView,
)
    requires
        caller != pool_acct,
        bootstrap_outcome(s, pool_acct, caller, asset_a, amount_a, asset_b, amount_b)
            == Ok::<DexView, Error>(post),
    ensures
        forall|a: u64|
            amt(post.reserves, a) - amt(s.reserves, a) == bal(post.balances, a, pool_acct) - bal(
                s.balances,
                a,
                pool_acct,
            ),
{
}

/// Conservation under a deposit: every reserve grows by exactly what the
/// pool's custodial account receives.
pub proof fn lemma_add_liquidity_conserves(
    s: DexView,
    pool_acct: u64,
    caller: u64,
    asset_a: u64,
    amount_a: u128,
    asset_b: u64,
    post: DexView,
    amount_b: u128,
)
    requires
        caller != pool_acct,
        add_liquidity_outcome(s, pool_acct, caller, asset_a, amount_a, asset_b) == Ok::<
            (DexView, u128),
            Error,
        >((post, amount_b)),
    ensures
        forall|a: u64|
            amt(post.reserves, a) - amt(s.reserves, a) == bal(post.balances, a, pool_acct) - bal(
                s.balances,
                a,
                pool_acct,
            ),
{
}

/// Conservation under a withdrawal: every reserve shrinks by exactly what
/// the pool's custodial account pays out.
pub proof fn lemma_remove_liquidity_conserves(
    s: DexView,
    pool_acct: u64,
    caller: u64,
    asset_a: u64,
    amount_a: u128,
    asset_b: u64,
    post: DexView,
    amount_b: u128,
)
    requires
        caller != pool_acct,
        remove_liquidity_outcome(s, pool_acct, caller, asset_a, amount_a, asset_b) == Ok::<
            (DexView, u128),
            Error,
        >((post, amount_b)),
    ensures
        forall|a: u64|
            amt(post.reserves, a) - amt(s.reserves, a) == bal(post.balances, a, pool_acct) - bal(
                s.balances,
                a,
                pool_acct,
            ),
{
}

/// Conservation under a swap: the input reserve grows by what custody
/// receives and the output reserve shrinks by what custody pays.
pub proof fn lemma_swap_conserves(
    s: DexView,
    pool_acct: u64,
    fee_bps: u64,
    caller: u64,
    asset_in: u64,
    amount_in: u128,
    asset_out: u64,
    post: DexView,
    amount_out: u128,
)
    requires
        caller != pool_acct,
        swap_outcome(s, pool_acct, fee_bps, caller, asset_in, amount_in, asset_out) == Ok::<
            (DexView, u128),
            Error,
        >((post, amount_out)),
    ensures
        forall|a: u64|
            amt(post.reserves, a) - amt(s.reserves, a) == bal(post.balances, a, pool_acct) - bal(
                s.balances,
                a,
                pool_acct,
            ),
{
}

/// The constant-product bound of the pricing rule, with the fee off.
///
/// A successful quote pays out so much that the product of the reserves
/// after the swap is never above the product before it, and below it by
/// less than one price unit, `ra + amount_in`; when the division is
/// exact, the product is preserved exactly. Truncation rounds the payout
/// up to the next whole amount, so the rounding favour goes to the
/// trader: the pool may lose up to one unit of the output asset per swap.
pub proof fn lemma_constant_product(ra: u128, rb: u128, amount_in: u128, amount_out: u128)
    requires
        quote_outcome(ra, rb, amount_in, 0) == Ok::<u128, Error>(amount_out),
    ensures
        (ra + amount_in) * (rb - amount_out) <= ra * rb,
        ra * rb < (ra + amount_in) * (rb - amount_out) + (ra + amount_in),
        (ra * rb) % (ra + amount_in) == 0 ==> (ra + amount_in) * (rb - amount_out) == ra * rb,
{
    let d = ra + amount_in;
    let paid = (ra * rb) / d;
    lemma_fundamental_div_mod(ra * rb, d);
    lemma_mod_bound(ra * rb, d);
    assert(ra * rb >= 0) by (nonlinear_arith);
    vstd::arithmetic::div_mod::lemma_div_is_ordered(0, ra * rb, d);
    vstd::arithmetic::mul::lemma_mul_inequality(ra as int, d, rb as int);
    vstd::arithmetic::div_mod::lemma_div_is_ordered(ra * rb, d * rb, d);
    vstd::arithmetic::div_mod::lemma_div_multiples_vanish(rb as int, d);
    assert(0 <= paid <= rb);
    assert(rb - amount_out == paid);
    assert(d * paid == (ra + amount_in) * (rb - amount_out));
}

/// The constant-product bound, read on a successful swap: the reserves
/// move by exactly the input and the payout, and their product obeys
/// [`lemma_constant_product`].
pub proof fn lemma_swap_constant_product(
    s: DexView,
    pool_acct: u64,
    caller: u64,
    asset_in: u64,
    amount_in: u128,
    asset_out: u64,
    post: DexView,
    amount_out: u128,
)
    requires
        asset_in != asset_out,
        swap_outcome(s, pool_acct, 0, caller, asset_in, amount_in, asset_out) == Ok::<
            (DexView, u128),
            Error,
        >((post, amount_out)),
    ensures
        amt(post.reserves, asset_in) == amt(s.reserves, asset_in) + amount_in,
        amt(post.reserves, asset_out) == amt(s.reserves, asset_out) - amount_out,
        amt(post.reserves, asset_in) * amt(post.reserves, asset_out) <= amt(s.reserves, asset_in)
            * amt(s.reserves, asset_out),
        amt(s.reserves, asset_in) * amt(s.reserves, asset_out) < amt(post.reserves, asset_in) * amt(
            post.reserves,
            asset_out,
        ) + amt(post.reserves, asset_in),
        (amt(s.reserves, asset_in) * amt(s.reserves, asset_out)) % (amt(s.reserves, asset_in)
            + amount_in) == 0 ==> amt(post.reserves, asset_in) * amt(post.reserves, asset_out)
            == amt(s.reserves, asset_in) * amt(s.reserves, asset_out),
{
    lemma_constant_product(
        amt(s.reserves, asset_in),
        amt(s.reserves, asset_out),
        amount_in,
        amount_out,
    );
}

/// Underflow attempts fail by name, never by wrapping: a withdrawal that
/// asks for more than the recorded stake is refused as
/// [`Error::InsufficientStake`], and one that asks for more than the
/// recorded reserve as [`Error::ArithmeticUnderflow`]. Together with the
/// unsigned amount type this is non-negativity: no operation can drive a
/// reserve or a stake below zero.
pub proof fn lemma_underflow_attempts_fail(
    s: DexView,
    pool_acct: u64,
    caller: u64,
    asset_a: u64,
    amount_a: u128,
    asset_b: u64,
)
    requires
        amt(s.reserves, asset_a) > 0,
        matched_amount(amt(s.reserves, asset_a), amt(s.reserves, asset_b), amount_a) <= u128::MAX,
        ({
            let amount_b = matched_amount(
                amt(s.reserves, asset_a),
                amt(s.reserves, asset_b),
                amount_a,
            ) as u128;
            amt(s.stake_first, caller) < amount_a || amt(s.stake_second, caller) < amount_b
                || !lower2_ok(s.reserves, asset_a, amount_a, asset_b, amount_b)
        }),
    ensures
        ({
            let amount_b = matched_amount(
                amt(s.reserves, asset_a),
                amt(s.reserves, asset_b),
                amount_a,
            ) as u128;
            let refused = remove_liquidity_outcome(s, pool_acct, caller, asset_a, amount_a,
                asset_b);
            if amt(s.stake_first, caller) < amount_a || amt(s.stake_second, caller) < amount_b {
                refused == Err::<(DexView, u128), Error>(Error::InsufficientStake)
            } else {
                refused == Err::<(DexView, u128), Error>(Error::ArithmeticUnderflow)
            }
        }),
{
}

/// A withdrawal undoes a deposit: after `add_liquidity` succeeds, the
/// same request to `remove_liquidity`, with no operation in between,
/// succeeds with the same derived amount and restores every balance,
/// every stake and every reserve to its value before the deposit.
///
/// The caller is not the pool's own custodial account: the custodian
/// paying itself would move nothing while the ledgers still change.
pub proof fn lemma_round_trip(
    s: DexView,
    pool_acct: u64,
    caller: u64,
    asset_a: u64,
    amount_a: u128,
    asset_b: u64,
    mid: DexView,
    amount_b: u128,
)
    requires
        caller != pool_acct,
        add_liquidity_outcome(s, pool_acct, caller, asset_a, amount_a, asset_b) == Ok::<
            (DexView, u128),
            Error,
        >((mid, amount_b)),
    ensures
        (remove_liquidity_outcome(mid, pool_acct, caller, asset_a, amount_a, asset_b) matches Ok(
            (back, back_b),
        ) && back_b == amount_b && (forall|a: u64, w: u64|
            #[trigger] bal(back.balances, a, w) == bal(s.balances, a, w)) && (forall|w: u64|
            #[trigger] amt(back.stake_first, w) == amt(s.stake_first, w)) && (forall|w: u64|
            #[trigger] amt(back.stake_second, w) == amt(s.stake_second, w)) && (forall|a: u64|
            #[trigger] amt(back.reserves, a) == amt(s.reserves, a))),
{
    let ra = amt(s.reserves, asset_a);
    let rb = amt(s.reserves, asset_b);
    if asset_a == asset_b {
        // both legs draw on the one reserve: the ratio is one before the
        // deposit and one after it
        vstd::arithmetic::div_mod::lemma_div_by_self(ra as int);
        assert(amount_b == amount_a);
        let rm = amt(mid.reserves, asset_a);
        assert(rm == ra + amount_a + amount_b);
        vstd::arithmetic::div_mod::lemma_div_by_self(rm as int);
        assert(matched_amount(rm, rm, amount_a) == amount_b);
    } else {
        let q = (rb / ra) as int;
        let r0 = rb % ra;
        lemma_fundamental_div_mod(rb as int, ra as int);
        lemma_mod_bound(rb as int, ra as int);
        // the deposit moves both reserves along the recorded ratio, so
        // the ratio itself is unchanged
        assert((rb + amount_b) == q * (ra + amount_a) + r0) by (nonlinear_arith)
            requires
                rb == ra * q + r0,
                amount_b == amount_a * q,
        ;
        lemma_fundamental_div_mod_converse(
            (rb + amount_b) as int,
            (ra + amount_a) as int,
            q,
            r0 as int,
        );
        assert(amt(mid.reserves, asset_a) == ra + amount_a);
        assert(amt(mid.reserves, asset_b) == rb + amount_b);
        assert(matched_amount(amt(mid.reserves, asset_a), amt(mid.reserves, asset_b), amount_a)
            == amount_b);
    }
}

} // verus!
