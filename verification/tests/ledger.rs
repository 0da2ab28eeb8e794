use dex::balances::Balances;
use dex::errors::Error;

#[test]
fn a_fresh_ledger_holds_nothing() {
    let ledger = Balances::new();
    assert_eq!(ledger.balance(1, 1), 0);
    assert_eq!(ledger.balance(7, 42), 0);
}

#[test]
fn mint_adds_and_overflow_is_refused() {
    let mut ledger = Balances::new();
    ledger.mint(1, 5, 100).unwrap();
    ledger.mint(1, 5, 25).unwrap();
    assert_eq!(ledger.balance(1, 5), 125);
    assert_eq!(ledger.mint(1, 5, u128::MAX - 124), Err(Error::ArithmeticOverflow));
    assert_eq!(ledger.balance(1, 5), 125);
}

#[test]
fn transfer_moves_the_amount_and_nothing_else() {
    let mut ledger = Balances::new();
    ledger.mint(1, 5, 100).unwrap();
    ledger.mint(2, 5, 7).unwrap();
    ledger.transfer(1, 5, 6, 40).unwrap();
    assert_eq!(ledger.balance(1, 5), 60);
    assert_eq!(ledger.balance(1, 6), 40);
    // the same account under another asset is untouched
    assert_eq!(ledger.balance(2, 5), 7);
    assert_eq!(ledger.balance(2, 6), 0);
}

#[test]
fn transfer_beyond_the_balance_is_refused() {
    let mut ledger = Balances::new();
    ledger.mint(1, 5, 100).unwrap();
    assert_eq!(ledger.transfer(1, 5, 6, 101), Err(Error::InsufficientBalance));
    assert_eq!(ledger.balance(1, 5), 100);
    assert_eq!(ledger.balance(1, 6), 0);
}

#[test]
fn transfer_overflowing_the_receiver_is_refused() {
    let mut ledger = Balances::new();
    ledger.mint(1, 5, 100).unwrap();
    ledger.mint(1, 6, u128::MAX - 10).unwrap();
    assert_eq!(ledger.transfer(1, 5, 6, 11), Err(Error::ArithmeticOverflow));
    assert_eq!(ledger.balance(1, 5), 100);
    assert_eq!(ledger.balance(1, 6), u128::MAX - 10);
}

#[test]
fn transfer_to_oneself_moves_nothing() {
    let mut ledger = Balances::new();
    ledger.mint(1, 5, 100).unwrap();
    ledger.transfer(1, 5, 5, 60).unwrap();
    assert_eq!(ledger.balance(1, 5), 100);
    assert_eq!(ledger.transfer(1, 5, 5, 101), Err(Error::InsufficientBalance));
}
