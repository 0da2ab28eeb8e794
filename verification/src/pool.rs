//! The pool engine: configuration, ledgers and the three operations.

use crate::balances::Balances;
use crate::errors::Error;
use crate::model::{
    add_liquidity_outcome, amt, bootstrap_outcome, quote_outcome, remove_liquidity_outcome,
    swap_outcome, DexView,
};
use std::collections::HashMap;
use vstd::arithmetic::div_mod::{lemma_div_is_ordered, lemma_div_multiples_vanish};
use vstd::arithmetic::mul::lemma_mul_inequality;
use vstd::prelude::*;

verus! {

broadcast use vstd::std_specs::hash::group_hash_axioms;

/// What the engine is configured with.
#[derive(Clone, Copy, Debug, PartialEq, Eq, Structural)]
pub struct Config {
    /// The stable identity from which the pool's custodial account is
    /// derived.
    pub pallet_id: u64,
    /// The swap fee in basis points of the input amount. Zero by default;
    /// the hook is here so a fee can be switched on without reshaping any
    /// operation.
    pub fee_bps: u64,
}

/// One of the two asset slots of the pool.
#[derive(Clone, Copy, Debug, PartialEq, Eq, Structural)]
pub enum Leg {
    /// The slot whose stakes are spent by the named amount.
    First,
    /// The slot whose stakes are spent by the derived amount.
    Second,
}

/// A notification of a completed operation, for observers and indexers.
#[derive(Clone, Copy, Debug, PartialEq, Eq, Structural)]
pub enum Event {
    /// A deposit was booked: `owner` paid both legs in.
    LiquidityAdded { owner: u64, asset_a: u64, amount_a: u128, asset_b: u64, amount_b: u128 },
    /// A withdrawal was booked: `owner` was paid both legs back.
    LiquidityRemoved { owner: u64, asset_a: u64, amount_a: u128, asset_b: u64, amount_b: u128 },
    /// A swap was booked: `owner` paid `amount_in` and received
    /// `amount_out`.
    TokenSwapped { owner: u64, asset_in: u64, amount_in: u128, asset_out: u64, amount_out: u128 },
}

/// The pool engine: the reserve ledger, the two stake ledgers and the
/// configuration. It holds no tokens itself; custody stays with the asset
/// ledger, under the pool's own account.
pub struct Pallet {
    config: Config,
    reserves: HashMap<u64, u128>,
    stake_first: HashMap<u64, u128>,
    stake_second: HashMap<u64, u128>,
}

/// The abstract state one operation reads and writes: the engine's own
/// ledgers together with the asset ledger's balance sheet.
pub open spec fn dex_view(p: Pallet, b: Balances) -> DexView {
    DexView {
        reserves: p.reserve_map(),
        stake_first: p.stake_map(Leg::First),
        stake_second: p.stake_map(Leg::Second),
        balances: b.sheet(),
    }
}

impl Pallet {
    /// A usable engine: the configured fee is at most the whole
    /// basis-point denominator. [`Pallet::new`] refuses anything else,
    /// and no operation changes the configuration.
    pub open spec fn wf(self) -> bool {
        self.config_spec().fee_bps <= 10_000
    }

    /// The configuration the engine was built with.
    pub closed spec fn config_spec(self) -> Config {
        self.config
    }

    /// The reserve ledger; [`amt`] reads it with a default of zero.
    pub closed spec fn reserve_map(self) -> Map<u64, u128> {
        self.reserves@
    }

    /// The stake ledger of one leg; [`amt`] reads it with a default of
    /// zero.
    pub closed spec fn stake_map(self, leg: Leg) -> Map<u64, u128> {
        match leg {
            Leg::First => self.stake_first@,
            Leg::Second => self.stake_second@,
        }
    }

    /// Builds an engine with empty ledgers. Refused when the fee is more
    /// than the whole basis-point denominator: such a fee would charge
    /// more than the input itself.
    pub fn new(config: Config) -> (r: Result<Pallet, Error>)
        ensures
            r is Ok <==> config.fee_bps <= 10_000,
            r is Err ==> r == Err::<Pallet, Error>(Error::InvalidPool),
            r matches Ok(p) ==> p.wf() && p.config_spec() == config && p.reserve_map() == Map::<
                u64,
                u128,
            >::empty() && p.stake_map(Leg::First) == Map::<u64, u128>::empty() && p.stake_map(
                Leg::Second,
            ) == Map::<u64, u128>::empty(),
    {
        if config.fee_bps > 10_000 {
            return Err(Error::InvalidPool);
        }
        Ok(
            Pallet {
                config,
                reserves: HashMap::new(),
                stake_first: HashMap::new(),
                stake_second: HashMap::new(),
            },
        )
    }

    /// The pool's custodial account on the asset ledger, a pure function
    /// of the configured identity.
    pub fn account_id(&self) -> (r: u64)
        ensures
            r == self.config_spec().pallet_id,
    {
        self.config.pallet_id
    }

    /// The configured swap fee in basis points.
    pub fn fee_basis_points(&self) -> (r: u64)
        ensures
            r == self.config_spec().fee_bps,
    {
        self.config.fee_bps
    }

    /// The recorded reserve of `asset`; zero when the pool never held it.
    pub fn reserve_of(&self, asset: u64) -> (r: u128)
        ensures
            r == amt(self.reserve_map(), asset),
    {
        match self.reserves.get(&asset) {
            Some(v) => *v,
            None => 0,
        }
    }

    /// The recorded stake of `who` on one leg; zero when unknown.
    pub fn stake_of(&self, who: u64, leg: Leg) -> (r: u128)
        ensures
            r == amt(self.stake_map(leg), who),
    {
        let table = match leg {
            Leg::First => &self.stake_first,
            Leg::Second => &self.stake_second,
        };
        match table.get(&who) {
            Some(v) => *v,
            None => 0,
        }
    }

    /// Writes one reserve entry; the callers do the checked arithmetic.
    fn set_reserve(&mut self, asset: u64, value: u128)
        ensures
            final(self).reserve_map() == old(self).reserve_map().insert(asset, value),
            final(self).stake_map(Leg::First) == old(self).stake_map(Leg::First),
            final(self).stake_map(Leg::Second) == old(self).stake_map(Leg::Second),
            final(self).config_spec() == old(self).config_spec(),
    {
        self.reserves.insert(asset, value);
    }

    /// Writes one stake entry; the callers do the checked arithmetic.
    fn set_stake(&mut self, who: u64, leg: Leg, value: u128)
        ensures
            final(self).stake_map(leg) == old(self).stake_map(leg).insert(who, value),
            final(self).stake_map(other_leg(leg)) == old(self).stake_map(other_leg(leg)),
            final(self).reserve_map() == old(self).reserve_map(),
            final(self).config_spec() == old(self).config_spec(),
    {
        match leg {
            Leg::First => {
                self.stake_first.insert(who, value);
            },
            Leg::Second => {
                self.stake_second.insert(who, value);
            },
        }
    }

    /// Asks what a swap of `amount_in` of `asset_in` for `asset_out`
    /// would pay right now, without changing anything. The answer is
    /// exactly what [`quote_outcome`] says of the current reserves and
    /// the configured fee.
    pub fn enquire_rate(&self, asset_in: u64, amount_in: u128, asset_out: u64) -> (r: Result<
        u128,
        Error,
    >)
        requires
            self.wf(),
        ensures
            r == quote_outcome(
                amt(self.reserve_map(), asset_in),
                amt(self.reserve_map(), asset_out),
                amount_in,
                self.config_spec().fee_bps,
            ),
    {
        let ra = self.reserve_of(asset_in);
        let rb = self.reserve_of(asset_out);
        if ra == 0 {
            return Err(Error::InvalidPool);
        }
        let fee_in = match amount_in.checked_mul(self.config.fee_bps as u128) {
            Some(p) => p / 10_000,
            None => {
                return Err(Error::ArithmeticOverflow);
            },
        };
        proof {
            // the fee never exceeds the input: fee_bps is at most the
            // whole denominator
            lemma_mul_inequality(self.config.fee_bps as int, 10_000, amount_in as int);
            lemma_div_is_ordered(
                amount_in * self.config.fee_bps,
                amount_in * 10_000,
                10_000,
            );
            lemma_div_multiples_vanish(amount_in as int, 10_000);
            assert(fee_in <= amount_in);
        }
        let net_in = amount_in - fee_in;
        let prod = match ra.checked_mul(rb) {
            Some(p) => p,
            None => {
                return Err(Error::ArithmeticOverflow);
            },
        };
        let denom = match ra.checked_add(net_in) {
            Some(d) => d,
            None => {
                return Err(Error::ArithmeticOverflow);
            },
        };
        let paid = prod / denom;
        if paid == 0 {
            return Err(Error::InsufficientLiquidity);
        }
        proof {
            // the pool pays at most the whole output reserve
            lemma_mul_inequality(ra as int, denom as int, rb as int);
            lemma_div_is_ordered(ra * rb, denom * rb, denom as int);
            lemma_div_multiples_vanish(rb as int, denom as int);
            assert(paid <= rb);
        }
        Ok(rb - paid)
    }

    /// A proportional deposit: `caller` pays `amount_a` of `asset_a` and
    /// the matching `amount_b` of `asset_b` to the pool, and both
    /// reserves and both of the caller's stakes grow by the same two
    /// amounts. The answer and the new state are exactly what
    /// [`add_liquidity_outcome`] says of the request; on any failure both
    /// ledgers and the balance sheet are left as they were.
    pub fn add_liquidity(
        &mut self,
        ledger: &mut Balances,
        caller: u64,
        asset_a: u64,
        amount_a: u128,
        asset_b: u64,
    ) -> (r: Result<Event, Error>)
        ensures
            final(self).config_spec() == old(self).config_spec(),
            ({
                let pre = dex_view(*old(self), *old(ledger));
                match add_liquidity_outcome(pre, old(self).config_spec().pallet_id, caller,
                    asset_a, amount_a, asset_b) {
                    Ok((post, amount_b)) => r == Ok::<Event, Error>(
                        Event::LiquidityAdded { owner: caller, asset_a, amount_a, asset_b, amount_b },
                    ) && dex_view(*final(self), *final(ledger)) == post,
                    Err(e) => r == Err::<Event, Error>(e) && dex_view(*final(self), *final(ledger))
                        == pre,
                }
            }),
    {
        let ghost pre = dex_view(*self, *ledger);
        let ra = self.reserve_of(asset_a);
        if ra == 0 {
            return Err(Error::InvalidPool);
        }
        let rb = self.reserve_of(asset_b);
        let ratio = rb / ra;
        let amount_b = match amount_a.checked_mul(ratio) {
            Some(v) => v,
            None => {
                return Err(Error::ArithmeticOverflow);
            },
        };
        if ledger.balance(asset_a, caller) < amount_a {
            return Err(Error::InsufficientBalance);
        }
        if ledger.balance(asset_b, caller) < amount_b {
            return Err(Error::InsufficientBalance);
        }
        let ra_new = match ra.checked_add(amount_a) {
            Some(v) => v,
            None => {
                return Err(Error::ArithmeticOverflow);
            },
        };
        let rb_cur = if asset_a == asset_b {
            ra_new
        } else {
            rb
        };
        let rb_new = match rb_cur.checked_add(amount_b) {
            Some(v) => v,
            None => {
                return Err(Error::ArithmeticOverflow);
            },
        };
        let s1_new = match self.stake_of(caller, Leg::First).checked_add(amount_a) {
            Some(v) => v,
            None => {
                return Err(Error::ArithmeticOverflow);
            },
        };
        let s2_new = match self.stake_of(caller, Leg::Second).checked_add(amount_b) {
            Some(v) => v,
            None => {
                return Err(Error::ArithmeticOverflow);
            },
        };
        let pool = self.account_id();
        match ledger.transfer(asset_a, caller, pool, amount_a) {
            Err(e) => {
                return Err(e);
            },
            Ok(()) => {},
        }
        match ledger.transfer(asset_b, caller, pool, amount_b) {
            Err(e) => {
                // roll the first leg back: the pool just received it, so
                // the reverse transfer cannot fail
                let undo = ledger.transfer(asset_a, pool, caller, amount_a);
                proof {
                    assert(undo is Ok);
                    assert(ledger.sheet() =~= pre.balances);
                }
                return Err(e);
            },
            Ok(()) => {},
        }
        self.set_reserve(asset_a, ra_new);
        self.set_reserve(asset_b, rb_new);
        self.set_stake(caller, Leg::First, s1_new);
        self.set_stake(caller, Leg::Second, s2_new);
        Ok(Event::LiquidityAdded { owner: caller, asset_a, amount_a, asset_b, amount_b })
    }

    /// The first deposit into an empty pool: the provider names both
    /// amounts outright and so fixes the initial ratio. The answer and
    /// the new state are exactly what [`bootstrap_outcome`] says; on any
    /// failure both ledgers and the balance sheet are left as they were.
    pub fn bootstrap_liquidity(
        &mut self,
        ledger: &mut Balances,
        caller: u64,
        asset_a: u64,
        amount_a: u128,
        asset_b: u64,
        amount_b: u128,
    ) -> (r: Result<Event, Error>)
        ensures
            final(self).config_spec() == old(self).config_spec(),
            ({
                let pre = dex_view(*old(self), *old(ledger));
                match bootstrap_outcome(pre, old(self).config_spec().pallet_id, caller, asset_a,
                    amount_a, asset_b, amount_b) {
                    Ok(post) => r == Ok::<Event, Error>(
                        Event::LiquidityAdded { owner: caller, asset_a, amount_a, asset_b, amount_b },
                    ) && dex_view(*final(self), *final(ledger)) == post,
                    Err(e) => r == Err::<Event, Error>(e) && dex_view(*final(self), *final(ledger))
                        == pre,
                }
            }),
    {
        let ghost pre = dex_view(*self, *ledger);
        if self.reserve_of(asset_a) != 0 || self.reserve_of(asset_b) != 0 {
            return Err(Error::InvalidPool);
        }
        if amount_a == 0 || amount_b == 0 {
            return Err(Error::InvalidPool);
        }
        if ledger.balance(asset_a, caller) < amount_a {
            return Err(Error::InsufficientBalance);
        }
        if ledger.balance(asset_b, caller) < amount_b {
            return Err(Error::InsufficientBalance);
        }
        let rb_cur = if asset_a == asset_b {
            amount_a
        } else {
            0
        };
        let rb_new = match rb_cur.checked_add(amount_b) {
            Some(v) => v,
            None => {
                return Err(Error::ArithmeticOverflow);
            },
        };
        let s1_new = match self.stake_of(caller, Leg::First).checked_add(amount_a) {
            Some(v) => v,
            None => {
                return Err(Error::ArithmeticOverflow);
            },
        };
        let s2_new = match self.stake_of(caller, Leg::Second).checked_add(amount_b) {
            Some(v) => v,
            None => {
                return Err(Error::ArithmeticOverflow);
            },
        };
        let pool = self.account_id();
        match ledger.transfer(asset_a, caller, pool, amount_a) {
            Err(e) => {
                return Err(e);
            },
            Ok(()) => {},
        }
        match ledger.transfer(asset_b, caller, pool, amount_b) {
            Err(e) => {
                let undo = ledger.transfer(asset_a, pool, caller, amount_a);
                proof {
                    assert(undo is Ok);
                    assert(ledger.sheet() =~= pre.balances);
                }
                return Err(e);
            },
            Ok(()) => {},
        }
        self.set_reserve(asset_a, amount_a);
        self.set_reserve(asset_b, rb_new);
        self.set_stake(caller, Leg::First, s1_new);
        self.set_stake(caller, Leg::Second, s2_new);
        Ok(Event::LiquidityAdded { owner: caller, asset_a, amount_a, asset_b, amount_b })
    }

    /// A proportional withdrawal, the reverse of a deposit: the pool pays
    /// `amount_a` of `asset_a` and the matching `amount_b` of `asset_b`
    /// back to `caller`, and both reserves and both of the caller's
    /// stakes shrink by the same two amounts. The answer and the new
    /// state are exactly what [`remove_liquidity_outcome`] says; on any
    /// failure both ledgers and the balance sheet are left as they were.
    pub fn remove_liquidity(
        &mut self,
        ledger: &mut Balances,
        caller: u64,
        asset_a: u64,
        amount_a: u128,
        asset_b: u64,
    ) -> (r: Result<Event, Error>)
        ensures
            final(self).config_spec() == old(self).config_spec(),
            ({
                let pre = dex_view(*old(self), *old(ledger));
                match remove_liquidity_outcome(pre, old(self).config_spec().pallet_id, caller,
                    asset_a, amount_a, asset_b) {
                    Ok((post, amount_b)) => r == Ok::<Event, Error>(
                        Event::LiquidityRemoved {
                            owner: caller,
                            asset_a,
                            amount_a,
                            asset_b,
                            amount_b,
                        },
                    ) && dex_view(*final(self), *final(ledger)) == post,
                    Err(e) => r == Err::<Event, Error>(e) && dex_view(*final(self), *final(ledger))
                        == pre,
                }
            }),
    {
        let ghost pre = dex_view(*self, *ledger);
        let ra = self.reserve_of(asset_a);
        if ra == 0 {
            return Err(Error::InvalidPool);
        }
        let rb = self.reserve_of(asset_b);
        let ratio = rb / ra;
        let amount_b = match amount_a.checked_mul(ratio) {
            Some(v) => v,
            None => {
                return Err(Error::ArithmeticOverflow);
            },
        };
        if self.stake_of(caller, Leg::First) < amount_a {
            return Err(Error::InsufficientStake);
        }
        if self.stake_of(caller, Leg::Second) < amount_b {
            return Err(Error::InsufficientStake);
        }
        if ra < amount_a {
            return Err(Error::ArithmeticUnderflow);
        }
        let ra_new = ra - amount_a;
        let rb_cur = if asset_a == asset_b {
            ra_new
        } else {
            rb
        };
        if rb_cur < amount_b {
            return Err(Error::ArithmeticUnderflow);
        }
        let rb_new = rb_cur - amount_b;
        let s1_new = self.stake_of(caller, Leg::First) - amount_a;
        let s2_new = self.stake_of(caller, Leg::Second) - amount_b;
        let pool = self.account_id();
        match ledger.transfer(asset_a, pool, caller, amount_a) {
            Err(e) => {
                return Err(as_custody_error(e));
            },
            Ok(()) => {},
        }
        match ledger.transfer(asset_b, pool, caller, amount_b) {
            Err(e) => {
                // roll the first leg back: the caller just received it,
                // so the reverse transfer cannot fail
                let undo = ledger.transfer(asset_a, caller, pool, amount_a);
                proof {
                    assert(undo is Ok);
                    assert(ledger.sheet() =~= pre.balances);
                }
                return Err(as_custody_error(e));
            },
            Ok(()) => {},
        }
        self.set_reserve(asset_a, ra_new);
        self.set_reserve(asset_b, rb_new);
        self.set_stake(caller, Leg::First, s1_new);
        self.set_stake(caller, Leg::Second, s2_new);
        Ok(Event::LiquidityRemoved { owner: caller, asset_a, amount_a, asset_b, amount_b })
    }

    /// A swap: `caller` pays `amount_in` of `asset_in` to the pool and
    /// receives the constant-product quote in `asset_out`; the input
    /// reserve grows by the full input and the output reserve shrinks by
    /// the payout. The answer and the new state are exactly what
    /// [`swap_outcome`] says of the request; on any failure both ledgers
    /// and the balance sheet are left as they were.
    pub fn swap_tokens(
        &mut self,
        ledger: &mut Balances,
        caller: u64,
        asset_in: u64,
        amount_in: u128,
        asset_out: u64,
    ) -> (r: Result<Event, Error>)
        requires
            old(self).wf(),
        ensures
            final(self).config_spec() == old(self).config_spec(),
            ({
                let pre = dex_view(*old(self), *old(ledger));
                match swap_outcome(pre, old(self).config_spec().pallet_id,
                    old(self).config_spec().fee_bps, caller, asset_in, amount_in, asset_out) {
                    Ok((post, amount_out)) => r == Ok::<Event, Error>(
                        Event::TokenSwapped {
                            owner: caller,
                            asset_in,
                            amount_in,
                            asset_out,
                            amount_out,
                        },
                    ) && dex_view(*final(self), *final(ledger)) == post,
                    Err(e) => r == Err::<Event, Error>(e) && dex_view(*final(self), *final(ledger))
                        == pre,
                }
            }),
    {
        let ghost pre = dex_view(*self, *ledger);
        if ledger.balance(asset_in, caller) < amount_in {
            return Err(Error::InsufficientBalance);
        }
        let amount_out = match self.enquire_rate(asset_in, amount_in, asset_out) {
            Ok(v) => v,
            Err(e) => {
                return Err(e);
            },
        };
        let r_in = self.reserve_of(asset_in);
        let r_in_new = match r_in.checked_add(amount_in) {
            Some(v) => v,
            None => {
                return Err(Error::ArithmeticOverflow);
            },
        };
        let r_out_cur = if asset_in == asset_out {
            r_in_new
        } else {
            self.reserve_of(asset_out)
        };
        if r_out_cur < amount_out {
            return Err(Error::ArithmeticUnderflow);
        }
        let r_out_new = r_out_cur - amount_out;
        let pool = self.account_id();
        match ledger.transfer(asset_in, caller, pool, amount_in) {
            Err(e) => {
                return Err(e);
            },
            Ok(()) => {},
        }
        match ledger.transfer(asset_out, pool, caller, amount_out) {
            Err(e) => {
                // roll the input back: the pool just received it, so the
                // reverse transfer cannot fail
                let undo = ledger.transfer(asset_in, pool, caller, amount_in);
                proof {
                    assert(undo is Ok);
                    assert(ledger.sheet() =~= pre.balances);
                }
                return Err(as_custody_error(e));
            },
            Ok(()) => {},
        }
        self.set_reserve(asset_in, r_in_new);
        self.set_reserve(asset_out, r_out_new);
        Ok(Event::TokenSwapped { owner: caller, asset_in, amount_in, asset_out, amount_out })
    }
}

/// Turns the asset ledger's refusal into the engine's report of it when
/// the pool itself was the payer.
fn as_custody_error(e: Error) -> (r: Error)
    ensures
        r == crate::model::custody_error(e),
{
    if e == Error::InsufficientBalance {
        Error::ExternalTransferFailed
    } else {
        e
    }
}

/// The leg that is not `leg`.
pub open spec fn other_leg(leg: Leg) -> Leg {
    match leg {
        Leg::First => Leg::Second,
        Leg::Second => Leg::First,
    }
}

} // verus!
