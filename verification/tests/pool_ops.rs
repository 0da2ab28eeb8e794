use dex::balances::Balances;
use dex::errors::Error;
use dex::pool::{Config, Event, Leg, Pallet};

const POOL_ID: u64 = 9_999;
const ASSET_A: u64 = 1;
const ASSET_B: u64 = 2;
const PROVIDER: u64 = 10;

fn funded_pool(reserve_a: u128, reserve_b: u128) -> (Pallet, Balances) {
    let mut pallet = Pallet::new(Config { pallet_id: POOL_ID, fee_bps: 0 }).unwrap();
    let mut ledger = Balances::new();
    ledger.mint(ASSET_A, PROVIDER, reserve_a).unwrap();
    ledger.mint(ASSET_B, PROVIDER, reserve_b).unwrap();
    pallet
        .bootstrap_liquidity(&mut ledger, PROVIDER, ASSET_A, reserve_a, ASSET_B, reserve_b)
        .unwrap();
    (pallet, ledger)
}

#[test]
fn bootstrap_records_reserves_stakes_and_custody() {
    let (pallet, ledger) = funded_pool(1_000, 2_000);
    assert_eq!(pallet.reserve_of(ASSET_A), 1_000);
    assert_eq!(pallet.reserve_of(ASSET_B), 2_000);
    assert_eq!(pallet.stake_of(PROVIDER, Leg::First), 1_000);
    assert_eq!(pallet.stake_of(PROVIDER, Leg::Second), 2_000);
    assert_eq!(ledger.balance(ASSET_A, PROVIDER), 0);
    assert_eq!(ledger.balance(ASSET_B, PROVIDER), 0);
    assert_eq!(ledger.balance(ASSET_A, pallet.account_id()), 1_000);
    assert_eq!(ledger.balance(ASSET_B, pallet.account_id()), 2_000);
}

#[test]
fn bootstrap_of_a_funded_pool_is_refused() {
    let (mut pallet, mut ledger) = funded_pool(1_000, 1_000);
    ledger.mint(ASSET_A, PROVIDER, 10).unwrap();
    ledger.mint(ASSET_B, PROVIDER, 10).unwrap();
    assert_eq!(
        pallet.bootstrap_liquidity(&mut ledger, PROVIDER, ASSET_A, 10, ASSET_B, 10),
        Err(Error::InvalidPool)
    );
}

#[test]
fn bootstrap_with_a_zero_amount_is_refused() {
    let mut pallet = Pallet::new(Config { pallet_id: POOL_ID, fee_bps: 0 }).unwrap();
    let mut ledger = Balances::new();
    ledger.mint(ASSET_A, PROVIDER, 10).unwrap();
    assert_eq!(
        pallet.bootstrap_liquidity(&mut ledger, PROVIDER, ASSET_A, 10, ASSET_B, 0),
        Err(Error::InvalidPool)
    );
}

#[test]
fn add_liquidity_follows_the_recorded_ratio() {
    let (mut pallet, mut ledger) = funded_pool(1_000, 2_000);
    let joiner: u64 = 11;
    ledger.mint(ASSET_A, joiner, 100).unwrap();
    ledger.mint(ASSET_B, joiner, 200).unwrap();
    let outcome = pallet.add_liquidity(&mut ledger, joiner, ASSET_A, 100, ASSET_B);
    assert_eq!(
        outcome,
        Ok(Event::LiquidityAdded {
            owner: joiner,
            asset_a: ASSET_A,
            amount_a: 100,
            asset_b: ASSET_B,
            amount_b: 200,
        })
    );
    assert_eq!(pallet.reserve_of(ASSET_A), 1_100);
    assert_eq!(pallet.reserve_of(ASSET_B), 2_200);
    assert_eq!(pallet.stake_of(joiner, Leg::First), 100);
    assert_eq!(pallet.stake_of(joiner, Leg::Second), 200);
    assert_eq!(ledger.balance(ASSET_A, joiner), 0);
    assert_eq!(ledger.balance(ASSET_B, joiner), 0);
}

#[test]
fn add_liquidity_to_an_empty_pool_is_refused() {
    let mut pallet = Pallet::new(Config { pallet_id: POOL_ID, fee_bps: 0 }).unwrap();
    let mut ledger = Balances::new();
    ledger.mint(ASSET_A, PROVIDER, 1_000).unwrap();
    ledger.mint(ASSET_B, PROVIDER, 1_000).unwrap();
    assert_eq!(
        pallet.add_liquidity(&mut ledger, PROVIDER, ASSET_A, 100, ASSET_B),
        Err(Error::InvalidPool)
    );
    assert_eq!(pallet.reserve_of(ASSET_A), 0);
    assert_eq!(ledger.balance(ASSET_A, PROVIDER), 1_000);
}

#[test]
fn add_liquidity_without_either_balance_is_refused() {
    let (mut pallet, mut ledger) = funded_pool(1_000, 2_000);
    let joiner: u64 = 11;
    // short on the first leg
    assert_eq!(
        pallet.add_liquidity(&mut ledger, joiner, ASSET_A, 100, ASSET_B),
        Err(Error::InsufficientBalance)
    );
    // covered on the first leg, short on the derived second leg
    ledger.mint(ASSET_A, joiner, 100).unwrap();
    ledger.mint(ASSET_B, joiner, 199).unwrap();
    assert_eq!(
        pallet.add_liquidity(&mut ledger, joiner, ASSET_A, 100, ASSET_B),
        Err(Error::InsufficientBalance)
    );
    assert_eq!(ledger.balance(ASSET_A, joiner), 100);
    assert_eq!(ledger.balance(ASSET_B, joiner), 199);
}

#[test]
fn add_liquidity_with_an_overflowing_derived_amount_is_refused() {
    let (mut pallet, mut ledger) = funded_pool(1, u128::MAX);
    let joiner: u64 = 11;
    ledger.mint(ASSET_A, joiner, 2).unwrap();
    // ratio is u128::MAX, so 2 * ratio cannot be represented
    assert_eq!(
        pallet.add_liquidity(&mut ledger, joiner, ASSET_A, 2, ASSET_B),
        Err(Error::ArithmeticOverflow)
    );
}

#[test]
fn add_liquidity_overflowing_a_reserve_is_refused() {
    let (mut pallet, mut ledger) = funded_pool(u128::MAX, u128::MAX);
    let joiner: u64 = 11;
    ledger.mint(ASSET_A, joiner, 1).unwrap();
    ledger.mint(ASSET_B, joiner, 1).unwrap();
    assert_eq!(
        pallet.add_liquidity(&mut ledger, joiner, ASSET_A, 1, ASSET_B),
        Err(Error::ArithmeticOverflow)
    );
    assert_eq!(pallet.reserve_of(ASSET_A), u128::MAX);
    assert_eq!(ledger.balance(ASSET_A, joiner), 1);
}

#[test]
fn remove_liquidity_after_add_restores_everything() {
    let (mut pallet, mut ledger) = funded_pool(1_000, 2_000);
    let joiner: u64 = 11;
    ledger.mint(ASSET_A, joiner, 150).unwrap();
    ledger.mint(ASSET_B, joiner, 300).unwrap();
    pallet.add_liquidity(&mut ledger, joiner, ASSET_A, 100, ASSET_B).unwrap();
    let outcome = pallet.remove_liquidity(&mut ledger, joiner, ASSET_A, 100, ASSET_B);
    assert_eq!(
        outcome,
        Ok(Event::LiquidityRemoved {
            owner: joiner,
            asset_a: ASSET_A,
            amount_a: 100,
            asset_b: ASSET_B,
            amount_b: 200,
        })
    );
    // the caller's balances, stakes, and the pool's reserves are exactly
    // as they were before the deposit
    assert_eq!(ledger.balance(ASSET_A, joiner), 150);
    assert_eq!(ledger.balance(ASSET_B, joiner), 300);
    assert_eq!(pallet.stake_of(joiner, Leg::First), 0);
    assert_eq!(pallet.stake_of(joiner, Leg::Second), 0);
    assert_eq!(pallet.reserve_of(ASSET_A), 1_000);
    assert_eq!(pallet.reserve_of(ASSET_B), 2_000);
}

#[test]
fn remove_liquidity_beyond_the_stake_is_refused() {
    let (mut pallet, mut ledger) = funded_pool(1_000, 1_000);
    let joiner: u64 = 11;
    ledger.mint(ASSET_A, joiner, 50).unwrap();
    ledger.mint(ASSET_B, joiner, 50).unwrap();
    pallet.add_liquidity(&mut ledger, joiner, ASSET_A, 50, ASSET_B).unwrap();
    assert_eq!(
        pallet.remove_liquidity(&mut ledger, joiner, ASSET_A, 51, ASSET_B),
        Err(Error::InsufficientStake)
    );
    assert_eq!(pallet.stake_of(joiner, Leg::First), 50);
    assert_eq!(pallet.reserve_of(ASSET_A), 1_050);
}

#[test]
fn remove_liquidity_beyond_the_reserve_underflows_by_name() {
    // stakes are recorded per account, not per asset, so a stake earned
    // in one pool can be pointed at another asset's reserve; the
    // defensive reserve check refuses the subtraction
    let (mut pallet, mut ledger) = funded_pool(10, 10_000);
    let other: u64 = 12;
    let asset_x: u64 = 3;
    let asset_y: u64 = 4;
    ledger.mint(asset_x, other, 5).unwrap();
    ledger.mint(asset_y, other, 5).unwrap();
    pallet.bootstrap_liquidity(&mut ledger, other, asset_x, 5, asset_y, 5).unwrap();
    // ratio of ASSET_A to asset_x is 10 / 5 = 2, so 6 asks for 12 of
    // ASSET_A; the provider's stakes (10 and 10000) cover both legs,
    // but reserve(asset_x) = 5 < 6
    assert_eq!(
        pallet.remove_liquidity(&mut ledger, PROVIDER, asset_x, 6, ASSET_A),
        Err(Error::ArithmeticUnderflow)
    );
    assert_eq!(pallet.reserve_of(asset_x), 5);
    assert_eq!(pallet.stake_of(PROVIDER, Leg::First), 10);
}

#[test]
fn a_failed_transfer_mid_operation_changes_nothing() {
    let (mut pallet, mut ledger) = funded_pool(100, 100);
    // custody is broken from outside: the external ledger moves most of
    // the pool's second asset away
    let outsider: u64 = 66;
    ledger.transfer(ASSET_B, pallet.account_id(), outsider, 60).unwrap();
    // the first leg can still be paid, so the withdrawal fails only on
    // its second transfer and has to roll the first one back
    assert_eq!(
        pallet.remove_liquidity(&mut ledger, PROVIDER, ASSET_A, 50, ASSET_B),
        Err(Error::ExternalTransferFailed)
    );
    assert_eq!(ledger.balance(ASSET_A, PROVIDER), 0);
    assert_eq!(ledger.balance(ASSET_B, PROVIDER), 0);
    assert_eq!(ledger.balance(ASSET_A, pallet.account_id()), 100);
    assert_eq!(ledger.balance(ASSET_B, pallet.account_id()), 40);
    assert_eq!(pallet.reserve_of(ASSET_A), 100);
    assert_eq!(pallet.reserve_of(ASSET_B), 100);
    assert_eq!(pallet.stake_of(PROVIDER, Leg::First), 100);
    assert_eq!(pallet.stake_of(PROVIDER, Leg::Second), 100);
}

#[test]
fn a_failed_swap_payout_rolls_the_input_back() {
    let (mut pallet, mut ledger) = funded_pool(100, 100);
    let outsider: u64 = 66;
    ledger.transfer(ASSET_B, pallet.account_id(), outsider, 100).unwrap();
    let trader: u64 = 20;
    ledger.mint(ASSET_A, trader, 50).unwrap();
    // the quote succeeds against the recorded reserves, the input
    // transfer succeeds, and only the payout fails: the input comes back
    assert_eq!(
        pallet.swap_tokens(&mut ledger, trader, ASSET_A, 50, ASSET_B),
        Err(Error::ExternalTransferFailed)
    );
    assert_eq!(ledger.balance(ASSET_A, trader), 50);
    assert_eq!(ledger.balance(ASSET_A, pallet.account_id()), 100);
    assert_eq!(pallet.reserve_of(ASSET_A), 100);
    assert_eq!(pallet.reserve_of(ASSET_B), 100);
}

#[test]
fn reserves_always_equal_net_transfers_into_custody() {
    let (mut pallet, mut ledger) = funded_pool(1_000, 1_000);
    let pool = pallet.account_id();
    let joiner: u64 = 11;
    let trader: u64 = 20;
    ledger.mint(ASSET_A, joiner, 500).unwrap();
    ledger.mint(ASSET_B, joiner, 500).unwrap();
    ledger.mint(ASSET_A, trader, 300).unwrap();
    assert_eq!(pallet.reserve_of(ASSET_A), ledger.balance(ASSET_A, pool));
    assert_eq!(pallet.reserve_of(ASSET_B), ledger.balance(ASSET_B, pool));
    pallet.add_liquidity(&mut ledger, joiner, ASSET_A, 500, ASSET_B).unwrap();
    assert_eq!(pallet.reserve_of(ASSET_A), ledger.balance(ASSET_A, pool));
    assert_eq!(pallet.reserve_of(ASSET_B), ledger.balance(ASSET_B, pool));
    pallet.swap_tokens(&mut ledger, trader, ASSET_A, 300, ASSET_B).unwrap();
    assert_eq!(pallet.reserve_of(ASSET_A), ledger.balance(ASSET_A, pool));
    assert_eq!(pallet.reserve_of(ASSET_B), ledger.balance(ASSET_B, pool));
    pallet.remove_liquidity(&mut ledger, joiner, ASSET_A, 200, ASSET_B).unwrap();
    assert_eq!(pallet.reserve_of(ASSET_A), ledger.balance(ASSET_A, pool));
    assert_eq!(pallet.reserve_of(ASSET_B), ledger.balance(ASSET_B, pool));
}

#[test]
fn swap_never_loses_more_than_one_price_unit_to_rounding() {
    let (mut pallet, mut ledger) = funded_pool(1_000, 1_000);
    let trader: u64 = 20;
    ledger.mint(ASSET_A, trader, 100).unwrap();
    let before = pallet.reserve_of(ASSET_A) * pallet.reserve_of(ASSET_B);
    pallet.swap_tokens(&mut ledger, trader, ASSET_A, 100, ASSET_B).unwrap();
    let after = pallet.reserve_of(ASSET_A) * pallet.reserve_of(ASSET_B);
    // 1100 * 909 = 999900: at most one price unit (1100) below the
    // product before the swap, and never above it
    assert!(after <= before);
    assert!(before < after + pallet.reserve_of(ASSET_A));
    assert_eq!(after, 999_900);
}
