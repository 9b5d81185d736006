use erc20::ledger::Erc20;
use erc20::ledger::Error;

const ALICE: u64 = 1;
const BOB: u64 = 2;
const EVE: u64 = 3;

#[test]
fn new_works() {
    let contract = Erc20::new(100, ALICE);
    assert_eq!(contract.total_supply(), 100);
    assert_eq!(contract.balance_of(ALICE), 100);
}

#[test]
fn transfer_works() {
    let mut contract = Erc20::new(100, ALICE);

    assert_eq!(contract.balance_of(BOB), 0);
    assert!(contract.transfer(ALICE, BOB, 10).is_ok());
    assert_eq!(contract.balance_of(BOB), 10);
    assert_eq!(contract.balance_of(ALICE), 90);
}

#[test]
fn approve_works() {
    let mut contract = Erc20::new(100, ALICE);

    assert!(contract.approve(ALICE, BOB, 50).is_ok());
    assert_eq!(contract.allowance(ALICE, BOB), 50);
}

#[test]
fn transfer_from_works() {
    let mut contract = Erc20::new(100, ALICE);

    assert!(contract.approve(ALICE, BOB, 50).is_ok());
    assert!(contract.transfer_from(ALICE, ALICE, EVE, 10).is_err());

    assert!(contract.transfer_from(BOB, ALICE, EVE, 10).is_ok());
    assert_eq!(contract.balance_of(EVE), 10);
    assert_eq!(contract.allowance(ALICE, BOB), 40);
}

#[test]
fn untouched_account_has_zero_balance() {
    let mut contract = Erc20::new(100, ALICE);
    assert_eq!(contract.balance_of(BOB), 0);
    assert!(contract.transfer(ALICE, BOB, 25).is_ok());
    assert!(contract.approve(ALICE, EVE, 5).is_ok());
    assert_eq!(contract.balance_of(99), 0);
}

#[test]
fn unapproved_pair_has_zero_allowance() {
    let mut contract = Erc20::new(100, ALICE);
    assert_eq!(contract.allowance(ALICE, BOB), 0);
    assert!(contract.approve(ALICE, BOB, 50).is_ok());
    assert_eq!(contract.allowance(BOB, ALICE), 0);
    assert_eq!(contract.allowance(ALICE, EVE), 0);
}

#[test]
fn approve_same_value_twice_is_idempotent() {
    let mut contract = Erc20::new(100, ALICE);
    assert!(contract.approve(ALICE, BOB, 50).is_ok());
    assert!(contract.approve(ALICE, BOB, 50).is_ok());
    assert_eq!(contract.allowance(ALICE, BOB), 50);
}

#[test]
fn approve_overwrites_previous_value() {
    let mut contract = Erc20::new(100, ALICE);
    assert!(contract.approve(ALICE, BOB, 50).is_ok());
    assert!(contract.approve(ALICE, BOB, 20).is_ok());
    assert_eq!(contract.allowance(ALICE, BOB), 20);
}

#[test]
fn transfer_round_trip_restores_balances() {
    let mut contract = Erc20::new(100, ALICE);
    assert!(contract.transfer(ALICE, BOB, 30).is_ok());
    assert!(contract.transfer(BOB, ALICE, 30).is_ok());
    assert_eq!(contract.balance_of(ALICE), 100);
    assert_eq!(contract.balance_of(BOB), 0);
}

#[test]
fn insufficient_balance_leaves_state_unchanged() {
    let mut contract = Erc20::new(100, ALICE);
    assert_eq!(contract.transfer(ALICE, BOB, 101), Err(Error::InsufficientBalance));
    assert_eq!(contract.balance_of(ALICE), 100);
    assert_eq!(contract.balance_of(BOB), 0);
}

#[test]
fn transfer_from_without_allowance_fails() {
    let mut contract = Erc20::new(100, ALICE);
    assert!(contract.approve(ALICE, BOB, 50).is_ok());
    assert_eq!(contract.transfer_from(EVE, ALICE, 99, 10), Err(Error::InsufficientAllowance));
    assert_eq!(contract.balance_of(ALICE), 100);
    assert_eq!(contract.balance_of(99), 0);
    assert_eq!(contract.allowance(ALICE, BOB), 50);
}

#[test]
fn transfer_from_insufficient_balance_keeps_allowance() {
    let mut contract = Erc20::new(5, ALICE);
    assert!(contract.approve(ALICE, BOB, 50).is_ok());
    assert_eq!(contract.transfer_from(BOB, ALICE, EVE, 10), Err(Error::InsufficientBalance));
    assert_eq!(contract.allowance(ALICE, BOB), 50);
    assert_eq!(contract.balance_of(ALICE), 5);
    assert_eq!(contract.balance_of(EVE), 0);
}

#[test]
fn self_transfer_keeps_balance() {
    let mut contract = Erc20::new(100, ALICE);
    assert!(contract.transfer(ALICE, ALICE, 40).is_ok());
    assert_eq!(contract.balance_of(ALICE), 100);
    assert_eq!(contract.transfer(ALICE, ALICE, 200), Err(Error::InsufficientBalance));
}

#[test]
fn zero_supply_ledger_is_legal() {
    let mut contract = Erc20::new(0, ALICE);
    assert_eq!(contract.total_supply(), 0);
    assert_eq!(contract.balance_of(ALICE), 0);
    assert!(contract.transfer(ALICE, BOB, 0).is_ok());
    assert_eq!(contract.balance_of(BOB), 0);
}

#[test]
fn transfer_entire_balance() {
    let mut contract = Erc20::new(100, ALICE);
    assert!(contract.transfer(ALICE, BOB, 100).is_ok());
    assert_eq!(contract.balance_of(ALICE), 0);
    assert_eq!(contract.balance_of(BOB), 100);
}

#[test]
fn allowance_may_exceed_balance() {
    let mut contract = Erc20::new(10, ALICE);
    assert!(contract.approve(ALICE, BOB, 1000).is_ok());
    assert_eq!(contract.allowance(ALICE, BOB), 1000);
}

#[test]
fn balances_sum_to_total_supply_after_operations() {
    let mut contract = Erc20::new(100, ALICE);
    assert!(contract.transfer(ALICE, BOB, 30).is_ok());
    assert!(contract.approve(ALICE, EVE, 60).is_ok());
    assert!(contract.transfer_from(EVE, ALICE, EVE, 45).is_ok());
    assert!(contract.transfer(BOB, EVE, 5).is_ok());
    let sum = contract.balance_of(ALICE) + contract.balance_of(BOB) + contract.balance_of(EVE);
    assert_eq!(sum, contract.total_supply());
    assert_eq!(contract.allowance(ALICE, EVE), 15);
}
