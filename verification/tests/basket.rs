use token_set::contract::Contract;
use token_set::credit_ledger::CreditLedger;
use token_set::errors::ErrorKind;
use token_set::set_info::{FeeReceiver, TokenWithRatio, FEE_DENOMINATOR};

const ALICE: u64 = 1;
const OWNER: u64 = 2;
const PLATFORM: u64 = 4;
const TOKEN_A: u64 = 10;
const TOKEN_B: u64 = 11;
const TOKEN_C: u64 = 12;

fn basket(ratios: &[(u64, u32)], owner_fee: u128, platform_fee: u128) -> Contract {
    let rows: Vec<TokenWithRatio> = ratios
        .iter()
        .map(|&(token_id, ratio)| TokenWithRatio { token_id, ratio })
        .collect();
    let fee = FeeReceiver { owner_fee, platform_fee, platform_id: PLATFORM };
    Contract::new(OWNER, rows, fee).unwrap()
}

#[test]
fn test_new() {
    let contract = basket(&[(TOKEN_A, 1)], 0, 0);
    assert_eq!(contract.token.total_supply(), 0);
    assert_eq!(contract.token.balance_of(ALICE), 0);
}

#[test]
fn test_wrap_transfer() {
    let mut contract = basket(&[(TOKEN_A, 1)], 0, 0);
    let amount_transfer: u128 = 100;
    contract.balances.increase(ALICE, TOKEN_A, amount_transfer);
    assert_eq!(contract.balances.read(ALICE, TOKEN_A), amount_transfer);

    let wrapped = contract.wrap(ALICE, None).unwrap();
    assert_eq!(wrapped, amount_transfer);
    assert_eq!(contract.balances.read(ALICE, TOKEN_A), 0);
    assert_eq!(contract.token.balance_of(ALICE), amount_transfer);
}

#[test]
fn simulate_wrapping() {
    let initial_balance: u128 = 1_000;
    // 1% fee
    let platform_fee: u128 = 10_000_000_000_000;
    // 4% fee
    let owner_fee: u128 = 40_000_000_000_000;
    let mut contract = basket(
        &[(TOKEN_A, 1), (TOKEN_B, 2), (TOKEN_C, 4)],
        owner_fee,
        platform_fee,
    );
    contract.balances.increase(ALICE, TOKEN_A, initial_balance);
    contract.balances.increase(ALICE, TOKEN_B, initial_balance);
    contract.balances.increase(ALICE, TOKEN_C, initial_balance);

    let amount_minted = contract.wrap(ALICE, None).unwrap();
    assert_eq!(amount_minted, initial_balance / 4);

    let expected_platform = amount_minted * 1_000 / 100_000;
    let expected_owner = amount_minted * 4_000 / 100_000;
    let expected_alice = amount_minted - expected_owner - expected_platform;

    assert_eq!(contract.token.balance_of(ALICE), expected_alice);
    assert_eq!(contract.token.balance_of(PLATFORM), expected_platform);
    assert_eq!(contract.token.balance_of(OWNER), expected_owner);
    assert_eq!(contract.token.total_supply(), amount_minted);
}

// Fee boundary: rates that together reach the denominator are accepted, and
// rates that together exceed it are rejected.
#[test]
fn fee_boundary() {
    let rows = vec![TokenWithRatio { token_id: TOKEN_A, ratio: 1 }];
    let half = FEE_DENOMINATOR / 2;
    let fee = FeeReceiver { owner_fee: half, platform_fee: half, platform_id: PLATFORM };
    assert!(Contract::new(OWNER, rows, fee).is_ok());

    let rows = vec![TokenWithRatio { token_id: TOKEN_A, ratio: 1 }];
    let fee = FeeReceiver {
        owner_fee: FEE_DENOMINATOR,
        platform_fee: 1,
        platform_id: PLATFORM,
    };
    assert!(matches!(
        Contract::new(OWNER, rows, fee),
        Err(ErrorKind::InvalidFeeConfiguration)
    ));
}

// The concrete two-asset scenario: ratios [1, 2], balances [1000, 2000],
// owner fee 4%, platform fee 1%.
#[test]
fn two_asset_scenario() {
    let owner_fee: u128 = 40_000_000_000_000;
    let platform_fee: u128 = 10_000_000_000_000;
    let mut contract = basket(&[(TOKEN_A, 1), (TOKEN_B, 2)], owner_fee, platform_fee);
    contract.balances.increase(ALICE, TOKEN_A, 1_000);
    contract.balances.increase(ALICE, TOKEN_B, 2_000);

    let max = contract.set_info.get_max_amount(&contract.balances, ALICE);
    assert_eq!(max, 1_000);

    let wrapped = contract.wrap(ALICE, Some(1_000)).unwrap();
    assert_eq!(wrapped, 1_000);
    assert_eq!(contract.token.balance_of(OWNER), 40);
    assert_eq!(contract.token.balance_of(PLATFORM), 10);
    assert_eq!(contract.token.balance_of(ALICE), 950);
    // The three shares sum exactly to the wrapped amount.
    assert_eq!(
        contract.token.balance_of(ALICE)
            + contract.token.balance_of(OWNER)
            + contract.token.balance_of(PLATFORM),
        wrapped
    );
    assert_eq!(contract.balances.read(ALICE, TOKEN_A), 0);
    assert_eq!(contract.balances.read(ALICE, TOKEN_B), 0);
}

// The max-wrappable amount is the bottleneck minimum across rows.
#[test]
fn max_amount_is_bottleneck_min() {
    let mut contract = basket(&[(TOKEN_A, 3), (TOKEN_B, 2), (TOKEN_C, 7)], 0, 0);
    contract.balances.increase(ALICE, TOKEN_A, 100);
    contract.balances.increase(ALICE, TOKEN_B, 55);
    contract.balances.increase(ALICE, TOKEN_C, 200);
    // 100/3 = 33, 55/2 = 27, 200/7 = 28: the bottleneck is TOKEN_B.
    let max = contract.set_info.get_max_amount(&contract.balances, ALICE);
    assert_eq!(max, 27);
    // An account with no credits at all can wrap nothing.
    assert_eq!(contract.set_info.get_max_amount(&contract.balances, OWNER), 0);
}

// A wrap that fails leaves every underlying credit balance and every
// composite-token balance unchanged.
#[test]
fn failed_wrap_changes_nothing() {
    let mut contract = basket(&[(TOKEN_A, 1), (TOKEN_B, 2)], 0, 0);
    contract.balances.increase(ALICE, TOKEN_A, 1_000);
    contract.balances.increase(ALICE, TOKEN_B, 2_000);

    let r = contract.wrap(ALICE, Some(1_001));
    assert!(matches!(r, Err(ErrorKind::ExceedsAvailable)));
    assert_eq!(contract.balances.read(ALICE, TOKEN_A), 1_000);
    assert_eq!(contract.balances.read(ALICE, TOKEN_B), 2_000);
    assert_eq!(contract.token.balance_of(ALICE), 0);
    assert_eq!(contract.token.balance_of(OWNER), 0);
    assert_eq!(contract.token.balance_of(PLATFORM), 0);
    assert_eq!(contract.token.total_supply(), 0);
}

// An owner fee pushed past the denominator after construction makes the
// split exceed the wrapped amount, and the wrap fails with `FeeOverflow`
// instead of underflowing; nothing changes.
#[test]
fn misconfigured_fee_fails_wrap() {
    let mut contract = basket(&[(TOKEN_A, 1)], 0, 0);
    contract.balances.increase(ALICE, TOKEN_A, 500);
    contract
        .update_owner_fee(OWNER, 2 * FEE_DENOMINATOR)
        .unwrap();

    let r = contract.wrap(ALICE, Some(10));
    assert!(matches!(r, Err(ErrorKind::FeeOverflow)));
    assert_eq!(contract.balances.read(ALICE, TOKEN_A), 500);
    assert_eq!(contract.token.balance_of(ALICE), 0);
    assert_eq!(contract.token.total_supply(), 0);
}

// Only the designated owner can update the owner fee.
#[test]
fn update_owner_fee_unauthorized() {
    let mut contract = basket(&[(TOKEN_A, 1)], 0, 0);
    let r = contract.update_owner_fee(ALICE, 1);
    assert!(matches!(r, Err(ErrorKind::Unauthorized)));

    contract.update_owner_fee(OWNER, 7).unwrap();
    assert_eq!(contract.set_info.fee.owner_fee, 7);
}

// Wrapping and then burning the full wrapped amount restores every
// underlying credit balance exactly.
#[test]
fn wrap_then_burn_restores_credits() {
    let mut contract = basket(&[(TOKEN_A, 1), (TOKEN_B, 2)], 0, 0);
    contract.balances.increase(ALICE, TOKEN_A, 1_001);
    contract.balances.increase(ALICE, TOKEN_B, 2_005);

    // max = min(1001/1, 2005/2) = 1001; the wrap debits 1001 and 2002.
    let wrapped = contract.wrap(ALICE, None).unwrap();
    assert_eq!(wrapped, 1_001);
    assert_eq!(contract.balances.read(ALICE, TOKEN_A), 0);
    assert_eq!(contract.balances.read(ALICE, TOKEN_B), 3);
    assert_eq!(contract.token.balance_of(ALICE), 1_001);

    contract.on_tokens_burned(ALICE, wrapped);
    assert_eq!(contract.balances.read(ALICE, TOKEN_A), 1_001);
    assert_eq!(contract.balances.read(ALICE, TOKEN_B), 2_005);
}

// The backing credits of a closed account accrue to the platform account.
#[test]
fn closed_account_credits_platform() {
    let mut contract = basket(&[(TOKEN_A, 2), (TOKEN_B, 3)], 0, 0);
    contract.on_account_closed(ALICE, 5);
    assert_eq!(contract.balances.read(PLATFORM, TOKEN_A), 10);
    assert_eq!(contract.balances.read(PLATFORM, TOKEN_B), 15);
    assert_eq!(contract.balances.read(ALICE, TOKEN_A), 0);
}

// The credit ledger rejects a debit larger than the balance and keeps the
// balance as it was.
#[test]
fn decrease_insufficient_balance() {
    let mut ledger = CreditLedger::new();
    ledger.increase(ALICE, TOKEN_A, 30);
    let r = ledger.decrease(ALICE, TOKEN_A, 31);
    assert!(matches!(r, Err(ErrorKind::InsufficientBalance)));
    assert_eq!(ledger.read(ALICE, TOKEN_A), 30);

    ledger.decrease(ALICE, TOKEN_A, 30).unwrap();
    assert_eq!(ledger.read(ALICE, TOKEN_A), 0);
}

// When the caller is also the owner or the platform, the shares land on the
// same account.
#[test]
fn coinciding_roles_accumulate_shares() {
    // Owner fee 4%, platform fee 1%, and the owner wraps.
    let owner_fee: u128 = 40_000_000_000_000;
    let platform_fee: u128 = 10_000_000_000_000;
    let mut contract = basket(&[(TOKEN_A, 1)], owner_fee, platform_fee);
    contract.balances.increase(OWNER, TOKEN_A, 1_000);

    let wrapped = contract.wrap(OWNER, None).unwrap();
    assert_eq!(wrapped, 1_000);
    // The owner keeps the caller share and receives the owner share.
    assert_eq!(contract.token.balance_of(OWNER), 950 + 40);
    assert_eq!(contract.token.balance_of(PLATFORM), 10);
}

// Wrapping with fees and burning back only the caller's share leaves each
// asset's credit balance short by exactly `ratio * (fee shares)`.
#[test]
fn wrap_then_burn_with_fees() {
    let owner_fee: u128 = 40_000_000_000_000;
    let platform_fee: u128 = 10_000_000_000_000;
    let mut contract = basket(&[(TOKEN_A, 1), (TOKEN_B, 2)], owner_fee, platform_fee);
    contract.balances.increase(ALICE, TOKEN_A, 1_000);
    contract.balances.increase(ALICE, TOKEN_B, 2_000);

    let wrapped = contract.wrap(ALICE, Some(1_000)).unwrap();
    assert_eq!(wrapped, 1_000);
    let caller_share = contract.token.balance_of(ALICE);
    assert_eq!(caller_share, 950);

    contract.on_tokens_burned(ALICE, caller_share);
    // The fee shares total 50, so the deficits are 1 * 50 and 2 * 50.
    assert_eq!(contract.balances.read(ALICE, TOKEN_A), 1_000 - 50);
    assert_eq!(contract.balances.read(ALICE, TOKEN_B), 2_000 - 100);
}
