//! The mathematical model of the engine.
//!
//! A [`DexView`] is the abstract state one operation works on: the pool's
//! reserve ledger, the two stake ledgers, and the balance sheet of the
//! external asset ledger. Each operation of the engine is specified by a
//! transition function here, a total function from the pre-state and the
//! request to either the post-state or the error the request earns. The
//! executable operations in [`crate::pool`] promise to agree with these
//! transitions exactly, and the laws in [`crate::laws`] are proved about
//! them.

use crate::errors::Error;
use vstd::prelude::*;

verus! {

/// One abstract state of the whole system.
///
/// Ledgers are maps with a default of zero: a key that is absent stands
/// for a zero entry, and [`amt`] and [`bal`] read them that way.
#[verifier::ext_equal]
pub struct DexView {
    /// Per-asset total reserve recorded by the pool.
    pub reserves: Map<u64, u128>,
    /// Per-account stake recorded for the first leg.
    pub stake_first: Map<u64, u128>,
    /// Per-account stake recorded for the second leg.
    pub stake_second: Map<u64, u128>,
    /// The external asset ledger: amount held, keyed by asset and account.
    pub balances: Map<(u64, u64), u128>,
}

/// The amount a ledger records for `k`; zero when there is no entry.
pub open spec fn amt(m: Map<u64, u128>, k: u64) -> u128 {
    if m.contains_key(k) {
        m[k]
    } else {
        0
    }
}

/// The balance of `who` in `asset` on a balance sheet; zero by default.
pub open spec fn bal(m: Map<(u64, u64), u128>, asset: u64, who: u64) -> u128 {
    if m.contains_key((asset, who)) {
        m[(asset, who)]
    } else {
        0
    }
}

/// The ledger with `d` added to the entry for `k`.
pub open spec fn raise(m: Map<u64, u128>, k: u64, d: u128) -> Map<u64, u128> {
    m.insert(k, (amt(m, k) + d) as u128)
}

/// The ledger with `d` taken from the entry for `k`.
pub open spec fn lower(m: Map<u64, u128>, k: u64, d: u128) -> Map<u64, u128> {
    m.insert(k, (amt(m, k) - d) as u128)
}

/// Whether `k1` can grow by `d1` and then `k2` by `d2` without overflow.
pub open spec fn raise2_ok(m: Map<u64, u128>, k1: u64, d1: u128, k2: u64, d2: u128) -> bool {
    amt(m, k1) + d1 <= u128::MAX && amt(raise(m, k1, d1), k2) + d2 <= u128::MAX
}

/// Whether `k1` can shrink by `d1` and then `k2` by `d2` without underflow.
pub open spec fn lower2_ok(m: Map<u64, u128>, k1: u64, d1: u128, k2: u64, d2: u128) -> bool {
    amt(m, k1) >= d1 && amt(lower(m, k1, d1), k2) >= d2
}

/// A transfer on the balance sheet that is known to fit: `from` pays
/// `amount` of `asset` and `to` receives it. A transfer to oneself moves
/// nothing.
pub open spec fn xfer(
    m: Map<(u64, u64), u128>,
    asset: u64,
    from: u64,
    to: u64,
    amount: u128,
) -> Map<(u64, u64), u128> {
    if from == to {
        m
    } else {
        m.insert((asset, from), (bal(m, asset, from) - amount) as u128).insert(
            (asset, to),
            (bal(m, asset, to) + amount) as u128,
        )
    }
}

/// What the asset ledger answers to one transfer request: the new balance
/// sheet, or the refusal. It refuses when the payer's balance is short,
/// or when the receiver's balance would not fit.
pub open spec fn transfer_outcome(
    m: Map<(u64, u64), u128>,
    asset: u64,
    from: u64,
    to: u64,
    amount: u128,
) -> Result<Map<(u64, u64), u128>, Error> {
    if bal(m, asset, from) < amount {
        Err(Error::InsufficientBalance)
    } else if from != to && bal(m, asset, to) + amount > u128::MAX {
        Err(Error::ArithmeticOverflow)
    } else {
        Ok(xfer(m, asset, from, to, amount))
    }
}

/// How the engine reports a refused transfer when the pool itself is the
/// payer: a short custodial account means the external ledger does not
/// hold what the records promise.
pub open spec fn custody_error(e: Error) -> Error {
    if e == Error::InsufficientBalance {
        Error::ExternalTransferFailed
    } else {
        e
    }
}

/// The fee charged on a swap input, in basis points of the input amount,
/// rounded down.
pub open spec fn fee_amount(amount_in: u128, fee_bps: u64) -> int {
    (amount_in * fee_bps) / 10_000
}

/// The constant-product quote: what a swap pays out.
///
/// With input reserve `ra`, output reserve `rb` and input `amount_in`, the
/// amount the fee leaves, `net_in`, buys `rb - (ra * rb) / (ra + net_in)`
/// of the output asset. Division truncates toward zero. The quote fails
/// with [`Error::InvalidPool`] on an empty input reserve, with
/// [`Error::ArithmeticOverflow`] when a product or sum exceeds the largest
/// amount, and with [`Error::InsufficientLiquidity`] when the payout would
/// drain the whole output reserve.
pub open spec fn quote_outcome(ra: u128, rb: u128, amount_in: u128, fee_bps: u64) -> Result<
    u128,
    Error,
> {
    if ra == 0 {
        Err(Error::InvalidPool)
    } else if amount_in * fee_bps > u128::MAX {
        Err(Error::ArithmeticOverflow)
    } else {
        let net_in = amount_in - fee_amount(amount_in, fee_bps);
        if ra * rb > u128::MAX {
            Err(Error::ArithmeticOverflow)
        } else if ra + net_in > u128::MAX {
            Err(Error::ArithmeticOverflow)
        } else {
            let paid = (ra * rb) / (ra + net_in);
            if paid == 0 {
                Err(Error::InsufficientLiquidity)
            } else {
                Ok((rb - paid) as u128)
            }
        }
    }
}

/// The amount of the second asset that matches `amount_a` of the first at
/// the pool's current ratio `rb / ra`, before any overflow check.
pub open spec fn matched_amount(ra: u128, rb: u128, amount_a: u128) -> int {
    amount_a * (rb / ra)
}

/// The transition of a first deposit into an empty pool.
///
/// The first provider fixes the initial ratio by naming both amounts
/// outright; afterwards deposits must follow the recorded ratio. Refused
/// with [`Error::InvalidPool`] when either reserve is already funded or
/// either amount is zero.
pub open spec fn bootstrap_outcome(
    s: DexView,
    pool_acct: u64,
    caller: u64,
    asset_a: u64,
    amount_a: u128,
    asset_b: u64,
    amount_b: u128,
) -> Result<DexView, Error> {
    if amt(s.reserves, asset_a) != 0 || amt(s.reserves, asset_b) != 0 {
        Err(Error::InvalidPool)
    } else if amount_a == 0 || amount_b == 0 {
        Err(Error::InvalidPool)
    } else if bal(s.balances, asset_a, caller) < amount_a {
        Err(Error::InsufficientBalance)
    } else if bal(s.balances, asset_b, caller) < amount_b {
        Err(Error::InsufficientBalance)
    } else if !raise2_ok(s.reserves, asset_a, amount_a, asset_b, amount_b) {
        Err(Error::ArithmeticOverflow)
    } else if amt(s.stake_first, caller) + amount_a > u128::MAX {
        Err(Error::ArithmeticOverflow)
    } else if amt(s.stake_second, caller) + amount_b > u128::MAX {
        Err(Error::ArithmeticOverflow)
    } else {
        match transfer_outcome(s.balances, asset_a, caller, pool_acct, amount_a) {
            Err(e) => Err(e),
            Ok(b1) => match transfer_outcome(b1, asset_b, caller, pool_acct, amount_b) {
                Err(e) => Err(e),
                Ok(b2) => Ok(
                    DexView {
                        reserves: raise2(s.reserves, asset_a, amount_a, asset_b, amount_b),
                        stake_first: raise(s.stake_first, caller, amount_a),
                        stake_second: raise(s.stake_second, caller, amount_b),
                        balances: b2,
                    },
                ),
            },
        }
    }
}

/// Two successive additions on a ledger.
pub open spec fn raise2(m: Map<u64, u128>, k1: u64, d1: u128, k2: u64, d2: u128) -> Map<
    u64,
    u128,
> {
    raise(raise(m, k1, d1), k2, d2)
}

/// Two successive subtractions on a ledger.
pub open spec fn lower2(m: Map<u64, u128>, k1: u64, d1: u128, k2: u64, d2: u128) -> Map<
    u64,
    u128,
> {
    lower(lower(m, k1, d1), k2, d2)
}

/// The transition of a proportional deposit.
///
/// The second amount is derived from the first by the recorded ratio,
/// `amount_b = amount_a * (rb / ra)`, with truncating division. The caller
/// pays both legs to the pool's custodial account; reserves and the
/// caller's stakes grow in lock-step by the same two amounts.
pub open spec fn add_liquidity_outcome(
    s: DexView,
    pool_acct: u64,
    caller: u64,
    asset_a: u64,
    amount_a: u128,
    asset_b: u64,
) -> Result<(DexView, u128), Error> {
    let ra = amt(s.reserves, asset_a);
    let rb = amt(s.reserves, asset_b);
    if ra == 0 {
        Err(Error::InvalidPool)
    } else if matched_amount(ra, rb, amount_a) > u128::MAX {
        Err(Error::ArithmeticOverflow)
    } else {
        let amount_b = matched_amount(ra, rb, amount_a) as u128;
        if bal(s.balances, asset_a, caller) < amount_a {
            Err(Error::InsufficientBalance)
        } else if bal(s.balances, asset_b, caller) < amount_b {
            Err(Error::InsufficientBalance)
        } else if !raise2_ok(s.reserves, asset_a, amount_a, asset_b, amount_b) {
            Err(Error::ArithmeticOverflow)
        } else if amt(s.stake_first, caller) + amount_a > u128::MAX {
            Err(Error::ArithmeticOverflow)
        } else if amt(s.stake_second, caller) + amount_b > u128::MAX {
            Err(Error::ArithmeticOverflow)
        } else {
            match transfer_outcome(s.balances, asset_a, caller, pool_acct, amount_a) {
                Err(e) => Err(e),
                Ok(b1) => match transfer_outcome(b1, asset_b, caller, pool_acct, amount_b) {
                    Err(e) => Err(e),
                    Ok(b2) => Ok(
                        (
                            DexView {
                                reserves: raise2(s.reserves, asset_a, amount_a, asset_b, amount_b),
                                stake_first: raise(s.stake_first, caller, amount_a),
                                stake_second: raise(s.stake_second, caller, amount_b),
                                balances: b2,
                            },
                            amount_b,
                        ),
                    ),
                },
            }
        }
    }
}

/// The transition of a proportional withdrawal, the reverse of a deposit.
///
/// The second amount follows the same ratio formula. The caller's stakes
/// must cover both legs; the reserves must cover both subtractions; the
/// pool's custodial account pays both legs back to the caller.
pub open spec fn remove_liquidity_outcome(
    s: DexView,
    pool_acct: u64,
    caller: u64,
    asset_a: u64,
    amount_a: u128,
    asset_b: u64,
) -> Result<(DexView, u128), Error> {
    let ra = amt(s.reserves, asset_a);
    let rb = amt(s.reserves, asset_b);
    if ra == 0 {
        Err(Error::InvalidPool)
    } else if matched_amount(ra, rb, amount_a) > u128::MAX {
        Err(Error::ArithmeticOverflow)
    } else {
        let amount_b = matched_amount(ra, rb, amount_a) as u128;
        if amt(s.stake_first, caller) < amount_a {
            Err(Error::InsufficientStake)
        } else if amt(s.stake_second, caller) < amount_b {
            Err(Error::InsufficientStake)
        } else if !lower2_ok(s.reserves, asset_a, amount_a, asset_b, amount_b) {
            Err(Error::ArithmeticUnderflow)
        } else {
            match transfer_outcome(s.balances, asset_a, pool_acct, caller, amount_a) {
                Err(e) => Err(custody_error(e)),
                Ok(b1) => match transfer_outcome(b1, asset_b, pool_acct, caller, amount_b) {
                    Err(e) => Err(custody_error(e)),
                    Ok(b2) => Ok(
                        (
                            DexView {
                                reserves: lower2(s.reserves, asset_a, amount_a, asset_b, amount_b),
                                stake_first: lower(s.stake_first, caller, amount_a),
                                stake_second: lower(s.stake_second, caller, amount_b),
                                balances: b2,
                            },
                            amount_b,
                        ),
                    ),
                },
            }
        }
    }
}

/// The transition of a swap.
///
/// The payout is the constant-product quote against the reserves before
/// the input is booked. The caller pays the input to the pool's custodial
/// account and the pool pays the quote back; the input reserve grows by
/// the full input and the output reserve shrinks by the payout.
pub open spec fn swap_outcome(
    s: DexView,
    pool_acct: u64,
    fee_bps: u64,
    caller: u64,
    asset_in: u64,
    amount_in: u128,
    asset_out: u64,
) -> Result<(DexView, u128), Error> {
    if bal(s.balances, asset_in, caller) < amount_in {
        Err(Error::InsufficientBalance)
    } else {
        match quote_outcome(amt(s.reserves, asset_in), amt(s.reserves, asset_out), amount_in,
            fee_bps) {
            Err(e) => Err(e),
            Ok(amount_out) => {
                if amt(s.reserves, asset_in) + amount_in > u128::MAX {
                    Err(Error::ArithmeticOverflow)
                } else if amt(raise(s.reserves, asset_in, amount_in), asset_out) < amount_out {
                    Err(Error::ArithmeticUnderflow)
                } else {
                    match transfer_outcome(s.balances, asset_in, caller, pool_acct, amount_in) {
                        Err(e) => Err(e),
                        Ok(b1) => match transfer_outcome(b1, asset_out, pool_acct, caller,
                            amount_out) {
                            Err(e) => Err(custody_error(e)),
                            Ok(b2) => Ok(
                                (
                                    DexView {
                                        reserves: lower(
                                            raise(s.reserves, asset_in, amount_in),
                                            asset_out,
                                            amount_out,
                                        ),
                                        stake_first: s.stake_first,
                                        stake_second: s.stake_second,
                                        balances: b2,
                                    },
                                    amount_out,
                                ),
                            ),
                        },
                    }
                }
            },
        }
    }
}

} // verus!
