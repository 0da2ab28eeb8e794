//! A model of the external asset ledger.
//!
//! The ledger that actually holds tokens is a collaborator of the engine:
//! it answers `balance` queries and performs `transfer`s, and it is the
//! sole custodian of funds. [`Balances`] is that collaborator as the
//! contracts see it: per-asset, per-account amounts with a default of
//! zero, a transfer that either moves the full amount or refuses and
//! changes nothing, and a mint for funding accounts at genesis.

use crate::errors::Error;
use crate::model::{bal, transfer_outcome, xfer};
use std::collections::HashMap;
use vstd::prelude::*;

verus! {

broadcast use vstd::std_specs::hash::group_hash_axioms;

/// The balance sheet of the asset ledger.
///
/// Entries are keyed by asset and account; an absent entry is a zero
/// balance. The abstract content is [`Balances::sheet`], a total map from
/// `(asset, account)` to the amount held.
pub struct Balances {
    slots: HashMap<u128, u128>,
}

/// The single storage key for the balance of `who` in `asset`.
spec fn slot_key(asset: u64, who: u64) -> u128 {
    (asset * 0x1_0000_0000_0000_0000 + who) as u128
}

proof fn lemma_slot_key_injective(a1: u64, w1: u64, a2: u64, w2: u64)
    ensures
        slot_key(a1, w1) == slot_key(a2, w2) <==> (a1 == a2 && w1 == w2),
{
}

impl Balances {
    /// The amount of `asset` held by `who`; zero when unknown.
    pub closed spec fn balance_of(self, asset: u64, who: u64) -> u128 {
        if self.slots@.contains_key(slot_key(asset, who)) {
            self.slots@[slot_key(asset, who)]
        } else {
            0
        }
    }

    /// The whole sheet as one total map, the form the transition
    /// functions of [`crate::model`] work on.
    pub open spec fn sheet(self) -> Map<(u64, u64), u128> {
        Map::total(|p: (u64, u64)| self.balance_of(p.0, p.1))
    }

    /// A ledger with every balance zero.
    pub fn new() -> (r: Balances)
        ensures
            forall|asset: u64, who: u64| #[trigger] r.balance_of(asset, who) == 0,
    {
        Balances { slots: HashMap::new() }
    }

    /// Answers a balance query; never fails.
    pub fn balance(&self, asset: u64, who: u64) -> (r: u128)
        ensures
            r == self.balance_of(asset, who),
    {
        let key: u128 = (asset as u128) * 0x1_0000_0000_0000_0000u128 + (who as u128);
        match self.slots.get(&key) {
            Some(v) => *v,
            None => 0,
        }
    }

    /// Creates `amount` of `asset` in `who`'s account, for funding a
    /// scenario; refused only when the balance would not fit.
    pub fn mint(&mut self, asset: u64, who: u64, amount: u128) -> (r: Result<(), Error>)
        ensures
            r is Ok <==> old(self).balance_of(asset, who) + amount <= u128::MAX,
            r is Err ==> r == Err::<(), Error>(Error::ArithmeticOverflow) && final(self).sheet()
                == old(self).sheet(),
            r is Ok ==> final(self).sheet() == old(self).sheet().insert(
                (asset, who),
                (old(self).balance_of(asset, who) + amount) as u128,
            ),
    {
        let held = self.balance(asset, who);
        if held > u128::MAX - amount {
            return Err(Error::ArithmeticOverflow);
        }
        let key: u128 = (asset as u128) * 0x1_0000_0000_0000_0000u128 + (who as u128);
        self.slots.insert(key, held + amount);
        proof {
            self.lemma_one_slot_changed(*old(self), asset, who, (held + amount) as u128);
            assert(self.sheet() =~= old(self).sheet().insert(
                (asset, who),
                (old(self).balance_of(asset, who) + amount) as u128,
            ));
        }
        Ok(())
    }

    /// After writing one slot, every other (asset, account) balance reads
    /// as before.
    proof fn lemma_one_slot_changed(self, pre: Balances, asset: u64, who: u64, v: u128)
        requires
            self.slots@ == pre.slots@.insert(slot_key(asset, who), v),
        ensures
            forall|a: u64, w: u64|
                (a != asset || w != who) ==> #[trigger] self.balance_of(a, w) == pre.balance_of(
                    a,
                    w,
                ),
            self.balance_of(asset, who) == self.slots@[slot_key(asset, who)],
    {
        assert forall|a: u64, w: u64| (a != asset || w != who) implies #[trigger] self.balance_of(
            a,
            w,
        ) == pre.balance_of(a, w) by {
            lemma_slot_key_injective(a, w, asset, who);
        }
    }

    /// Moves `amount` of `asset` from `from` to `to`, or refuses and moves
    /// nothing. The answer and the new sheet are exactly what
    /// [`transfer_outcome`] says of the request.
    pub fn transfer(&mut self, asset: u64, from: u64, to: u64, amount: u128) -> (r: Result<
        (),
        Error,
    >)
        ensures
            match transfer_outcome(old(self).sheet(), asset, from, to, amount) {
                Ok(m) => r == Ok::<(), Error>(()) && final(self).sheet() == m,
                Err(e) => r == Err::<(), Error>(e) && final(self).sheet() == old(self).sheet(),
            },
    {
        proof {
            // the sheet is total, so its reads are the balances themselves
            assert(bal(self.sheet(), asset, from) == self.balance_of(asset, from));
            assert(bal(self.sheet(), asset, to) == self.balance_of(asset, to));
        }
        let held = self.balance(asset, from);
        if held < amount {
            return Err(Error::InsufficientBalance);
        }
        if from == to {
            return Ok(());
        }
        let target = self.balance(asset, to);
        if target > u128::MAX - amount {
            return Err(Error::ArithmeticOverflow);
        }
        let ghost pre = *self;
        let key_from: u128 = (asset as u128) * 0x1_0000_0000_0000_0000u128 + (from as u128);
        self.slots.insert(key_from, held - amount);
        let ghost mid = *self;
        let key_to: u128 = (asset as u128) * 0x1_0000_0000_0000_0000u128 + (to as u128);
        self.slots.insert(key_to, target + amount);
        proof {
            lemma_slot_key_injective(asset, from, asset, to);
            mid.lemma_one_slot_changed(pre, asset, from, (held - amount) as u128);
            self.lemma_one_slot_changed(mid, asset, to, (target + amount) as u128);
            assert(self.balance_of(asset, from) == (pre.balance_of(asset, from) - amount) as u128);
            assert(self.sheet() =~= xfer(pre.sheet(), asset, from, to, amount));
        }
        Ok(())
    }
}

} // verus!
