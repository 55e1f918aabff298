//! End-to-end scenarios against the vault service.

use vault_core::asset::TokenType;
use vault_core::errors::VaultError;
use vault_core::events::EventKind;
use vault_core::settlement::Direction;
use vault_core::vault::{AssetPolicy, Vault, VaultConfig};

const OWNER: u64 = 1;
const ALICE: u64 = 10;
const BOB: u64 = 11;

fn open_policy() -> AssetPolicy {
    AssetPolicy { min_amount: 0, max_amount: u128::MAX, capacity: u128::MAX }
}

fn test_config() -> VaultConfig {
    VaultConfig {
        owner: OWNER,
        paused: false,
        fee_bps: 0,
        wnear_adapter: 100,
        usdc_adapter: 101,
        usdt_adapter: 102,
        wnear_policy: open_policy(),
        usdc_policy: open_policy(),
        usdt_policy: open_policy(),
    }
}

#[test]
fn deposit_confirm_withdraw_confirm_scenario() {
    // Empty vault, reserve 0.
    let mut v = Vault::new(test_config());
    assert_eq!(v.get_reserve(TokenType::WNEAR), 0);

    // Opening a deposit of 500 yields id 1 and moves nothing yet.
    let (id1, instr1) = v.deposit(ALICE, TokenType::WNEAR, 500, 1000).unwrap();
    assert_eq!(id1, 1);
    assert!(matches!(instr1.direction, Direction::Deposit));
    assert_eq!(instr1.adapter, 100);
    assert_eq!(instr1.amount, 500);
    assert_eq!(v.get_shares(ALICE, TokenType::WNEAR), 0);
    assert_eq!(v.get_reserve(TokenType::WNEAR), 0);

    // Confirmation mints and credits, and logs one Deposited event.
    v.resolve_deposit_callback(id1, true, 1001).unwrap();
    assert_eq!(v.get_shares(ALICE, TokenType::WNEAR), 500);
    assert_eq!(v.get_reserve(TokenType::WNEAR), 500);
    assert_eq!(v.get_total_supply(TokenType::WNEAR), 500);
    let events = v.get_events(10);
    assert_eq!(events.len(), 1);
    assert!(matches!(events[0].kind, EventKind::Deposited));
    assert_eq!(events[0].amount, 500);
    assert_eq!(events[0].share_delta, 500);
    assert_eq!(events[0].account, ALICE);

    // Opening the withdrawal burns and debits immediately; id is 2.
    let (id2, instr2) = v.withdraw(ALICE, TokenType::WNEAR, 500, 1002).unwrap();
    assert_eq!(id2, 2);
    assert!(matches!(instr2.direction, Direction::Withdraw));
    assert_eq!(v.get_shares(ALICE, TokenType::WNEAR), 0);
    assert_eq!(v.get_reserve(TokenType::WNEAR), 0);

    // Confirmation only logs Withdrawn; no further ledger change.
    v.resolve_withdraw_callback(id2, true, 1003).unwrap();
    assert_eq!(v.get_shares(ALICE, TokenType::WNEAR), 0);
    assert_eq!(v.get_reserve(TokenType::WNEAR), 0);
    assert_eq!(v.get_total_supply(TokenType::WNEAR), 0);
    let events = v.get_events(10);
    assert_eq!(events.len(), 2);
    assert!(matches!(events[1].kind, EventKind::Withdrawn));
    assert_eq!(events[1].share_delta, 500);
}

#[test]
fn withdraw_more_than_balance_fails_without_trace() {
    let mut v = Vault::new(test_config());
    let (id, _) = v.deposit(ALICE, TokenType::WNEAR, 100, 0).unwrap();
    v.resolve_deposit_callback(id, true, 1).unwrap();
    assert_eq!(v.get_shares(ALICE, TokenType::WNEAR), 100);

    let r = v.withdraw(ALICE, TokenType::WNEAR, 200, 2);
    assert_eq!(r.unwrap_err(), VaultError::InsufficientShares);
    // No settlement was created and nothing moved.
    assert!(!v.has_open_settlement(ALICE, TokenType::WNEAR));
    assert_eq!(v.get_shares(ALICE, TokenType::WNEAR), 100);
    assert_eq!(v.get_reserve(TokenType::WNEAR), 100);
}

#[test]
fn second_withdraw_on_open_pair_is_rejected() {
    let mut v = Vault::new(test_config());
    let (id, _) = v.deposit(ALICE, TokenType::USDC, 300, 0).unwrap();
    v.resolve_deposit_callback(id, true, 1).unwrap();

    let (_wid, _) = v.withdraw(ALICE, TokenType::USDC, 100, 2).unwrap();
    let shares_before = v.get_shares(ALICE, TokenType::USDC);
    let reserve_before = v.get_reserve(TokenType::USDC);

    let r = v.withdraw(ALICE, TokenType::USDC, 100, 3);
    assert_eq!(r.unwrap_err(), VaultError::SettlementInProgress);
    assert_eq!(v.get_shares(ALICE, TokenType::USDC), shares_before);
    assert_eq!(v.get_reserve(TokenType::USDC), reserve_before);

    // A different pair — same account, other asset — is independent.
    let (id2, _) = v.deposit(ALICE, TokenType::USDT, 50, 4).unwrap();
    v.resolve_deposit_callback(id2, true, 5).unwrap();
    assert!(v.withdraw(ALICE, TokenType::USDT, 25, 6).is_ok());
}

#[test]
fn failed_withdraw_is_compensated_exactly() {
    let mut v = Vault::new(test_config());
    let (id, _) = v.deposit(ALICE, TokenType::WNEAR, 250, 0).unwrap();
    v.resolve_deposit_callback(id, true, 1).unwrap();

    let shares_before = v.get_shares(ALICE, TokenType::WNEAR);
    let reserve_before = v.get_reserve(TokenType::WNEAR);
    let supply_before = v.get_total_supply(TokenType::WNEAR);

    let (wid, _) = v.withdraw(ALICE, TokenType::WNEAR, 100, 2).unwrap();
    assert_eq!(v.get_shares(ALICE, TokenType::WNEAR), 150);
    assert_eq!(v.get_reserve(TokenType::WNEAR), 150);

    v.resolve_withdraw_callback(wid, false, 3).unwrap();
    assert_eq!(v.get_shares(ALICE, TokenType::WNEAR), shares_before);
    assert_eq!(v.get_reserve(TokenType::WNEAR), reserve_before);
    assert_eq!(v.get_total_supply(TokenType::WNEAR), supply_before);
    // The failure is on record and the pair is free again.
    let failed = v.get_events_of_kind(EventKind::Failed, 10);
    assert_eq!(failed.len(), 1);
    assert_eq!(failed[0].share_delta, 0);
    assert!(!v.has_open_settlement(ALICE, TokenType::WNEAR));
}

#[test]
fn failed_deposit_mutates_nothing() {
    let mut v = Vault::new(test_config());
    let (id, _) = v.deposit(BOB, TokenType::USDC, 70, 0).unwrap();
    v.resolve_deposit_callback(id, false, 1).unwrap();
    assert_eq!(v.get_shares(BOB, TokenType::USDC), 0);
    assert_eq!(v.get_reserve(TokenType::USDC), 0);
    assert_eq!(v.get_total_supply(TokenType::USDC), 0);
    let events = v.get_events(10);
    assert_eq!(events.len(), 1);
    assert!(matches!(events[0].kind, EventKind::Failed));
    assert!(!v.has_open_settlement(BOB, TokenType::USDC));
}

#[test]
fn double_resolution_is_rejected_with_no_effect() {
    let mut v = Vault::new(test_config());
    let (id, _) = v.deposit(ALICE, TokenType::WNEAR, 40, 0).unwrap();
    v.resolve_deposit_callback(id, true, 1).unwrap();
    let r = v.resolve_deposit_callback(id, true, 2);
    assert_eq!(r.unwrap_err(), VaultError::DoubleResolution);
    assert_eq!(v.get_shares(ALICE, TokenType::WNEAR), 40);
    assert_eq!(v.get_events(10).len(), 1);
}

#[test]
fn resolve_callback_must_match_direction() {
    let mut v = Vault::new(test_config());
    let (id, _) = v.deposit(ALICE, TokenType::WNEAR, 40, 0).unwrap();
    // A deposit settlement is not the withdraw callback's to resolve.
    let r = v.resolve_withdraw_callback(id, true, 1);
    assert_eq!(r.unwrap_err(), VaultError::DoubleResolution);
    // The record is still open and resolvable by the right callback.
    assert!(v.has_open_settlement(ALICE, TokenType::WNEAR));
    v.resolve_deposit_callback(id, true, 2).unwrap();
    assert_eq!(v.get_shares(ALICE, TokenType::WNEAR), 40);
}

#[test]
fn validation_errors_in_order() {
    let mut v = Vault::new(VaultConfig {
        wnear_policy: AssetPolicy { min_amount: 10, max_amount: 1000, capacity: 1500 },
        ..test_config()
    });

    assert_eq!(v.deposit(ALICE, TokenType::WNEAR, 0, 0).unwrap_err(), VaultError::ZeroAmount);
    assert_eq!(v.deposit(ALICE, TokenType::WNEAR, 5, 0).unwrap_err(), VaultError::BelowMinimum);
    assert_eq!(v.deposit(ALICE, TokenType::WNEAR, 1001, 0).unwrap_err(), VaultError::AboveMaximum);

    // Fill the reserve close to capacity, then overflow it.
    let (id, _) = v.deposit(ALICE, TokenType::WNEAR, 1000, 0).unwrap();
    v.resolve_deposit_callback(id, true, 1).unwrap();
    let (id2, _) = v.deposit(BOB, TokenType::WNEAR, 400, 2).unwrap();
    v.resolve_deposit_callback(id2, true, 3).unwrap();
    assert_eq!(v.get_reserve(TokenType::WNEAR), 1400);
    assert_eq!(
        v.deposit(ALICE, TokenType::WNEAR, 200, 4).unwrap_err(),
        VaultError::AboveCapacity
    );

    // Withdrawals respect the same request bounds.
    assert_eq!(v.withdraw(ALICE, TokenType::WNEAR, 5, 5).unwrap_err(), VaultError::BelowMinimum);

    // Paused beats everything.
    v.set_paused(OWNER, true).unwrap();
    assert_eq!(v.deposit(ALICE, TokenType::WNEAR, 0, 6).unwrap_err(), VaultError::VaultPaused);
    assert_eq!(v.withdraw(ALICE, TokenType::WNEAR, 0, 7).unwrap_err(), VaultError::VaultPaused);
}

#[test]
fn accounts_share_one_reserve_per_asset() {
    // Two accounts hold shares against the same asset's reserve; each can
    // only withdraw what it holds, however much the reserve still has.
    let mut v = Vault::new(test_config());
    let (id1, _) = v.deposit(ALICE, TokenType::WNEAR, 100, 0).unwrap();
    v.resolve_deposit_callback(id1, true, 1).unwrap();
    let (id2, _) = v.deposit(BOB, TokenType::WNEAR, 50, 2).unwrap();
    v.resolve_deposit_callback(id2, true, 3).unwrap();

    // Alice withdraws everything she has; the reserve drops to 50.
    let (wid, _) = v.withdraw(ALICE, TokenType::WNEAR, 100, 4).unwrap();
    v.resolve_withdraw_callback(wid, true, 5).unwrap();
    assert_eq!(v.get_reserve(TokenType::WNEAR), 50);

    // Bob still holds 50 shares, so a withdrawal of 50 is fine...
    let (wid2, _) = v.withdraw(BOB, TokenType::WNEAR, 50, 6).unwrap();
    v.resolve_withdraw_callback(wid2, false, 7).unwrap();
    // ...but after the compensation a larger one fails on his shares.
    assert_eq!(
        v.withdraw(BOB, TokenType::WNEAR, 60, 8).unwrap_err(),
        VaultError::InsufficientShares
    );
}

#[test]
fn admin_operations_are_owner_gated() {
    let mut v = Vault::new(test_config());
    assert_eq!(v.set_paused(ALICE, true).unwrap_err(), VaultError::Unauthorized);
    assert!(!v.is_paused());
    v.set_paused(OWNER, true).unwrap();
    assert!(v.is_paused());
    v.set_paused(OWNER, false).unwrap();
    assert!(!v.is_paused());

    let mut new_config = test_config();
    new_config.fee_bps = 25;
    assert_eq!(
        v.update_config(ALICE, new_config).unwrap_err(),
        VaultError::Unauthorized
    );
    v.update_config(OWNER, new_config).unwrap();
    assert_eq!(v.get_config().fee_bps, 25);
}

#[test]
fn force_resolve_unblocks_a_silent_adapter() {
    let mut v = Vault::new(test_config());
    let (id, _) = v.deposit(ALICE, TokenType::WNEAR, 80, 0).unwrap();
    v.resolve_deposit_callback(id, true, 1).unwrap();
    let (wid, _) = v.withdraw(ALICE, TokenType::WNEAR, 80, 2).unwrap();

    // Only the owner may force a resolution.
    assert_eq!(v.force_resolve(ALICE, wid, 3).unwrap_err(), VaultError::Unauthorized);
    // The owner resolves the stuck withdrawal as failed: compensation.
    v.force_resolve(OWNER, wid, 4).unwrap();
    assert_eq!(v.get_shares(ALICE, TokenType::WNEAR), 80);
    assert_eq!(v.get_reserve(TokenType::WNEAR), 80);
    assert!(!v.has_open_settlement(ALICE, TokenType::WNEAR));
    // Forcing it again is a double resolution.
    assert_eq!(v.force_resolve(OWNER, wid, 5).unwrap_err(), VaultError::DoubleResolution);

    // A stuck deposit force-resolves to a failure without minting.
    let (id2, _) = v.deposit(BOB, TokenType::USDC, 10, 6).unwrap();
    v.force_resolve(OWNER, id2, 7).unwrap();
    assert_eq!(v.get_shares(BOB, TokenType::USDC), 0);
    assert_eq!(v.get_reserve(TokenType::USDC), 0);
}

#[test]
fn resolve_overflow_aborts_without_commit() {
    let mut v = Vault::new(test_config());
    // Both deposits are opened while the reserve is still empty, so both
    // pass the capacity policy; the first confirmation fills the domain.
    let (id, _) = v.deposit(ALICE, TokenType::WNEAR, u128::MAX, 0).unwrap();
    let (id2, _) = v.deposit(BOB, TokenType::WNEAR, 1, 1).unwrap();
    v.resolve_deposit_callback(id, true, 2).unwrap();
    assert_eq!(v.get_reserve(TokenType::WNEAR), u128::MAX);

    // Confirming the second would push the counters past the domain: the
    // resolution aborts, commits nothing, and keeps the record open.
    assert_eq!(
        v.resolve_deposit_callback(id2, true, 3).unwrap_err(),
        VaultError::Overflow
    );
    assert_eq!(v.get_shares(BOB, TokenType::WNEAR), 0);
    assert!(v.has_open_settlement(BOB, TokenType::WNEAR));
    // The operator can still unblock the pair by failing it.
    v.force_resolve(OWNER, id2, 4).unwrap();
    assert!(!v.has_open_settlement(BOB, TokenType::WNEAR));
}

#[test]
fn settlement_ids_are_monotonic_and_queryable() {
    let mut v = Vault::new(test_config());
    let (id1, _) = v.deposit(ALICE, TokenType::WNEAR, 10, 0).unwrap();
    let (id2, _) = v.deposit(ALICE, TokenType::USDC, 20, 1).unwrap();
    assert_eq!(id1, 1);
    assert_eq!(id2, 2);
    let p = v.get_settlement(id2).unwrap();
    assert_eq!(p.account, ALICE);
    assert!(matches!(p.asset, TokenType::USDC));
    assert_eq!(p.amount, 20);
    assert!(matches!(p.direction, Direction::Deposit));
    assert_eq!(p.created_at, 1);
    assert!(v.get_settlement(99).is_none());
}

#[test]
fn events_can_be_filtered_by_account() {
    let mut v = Vault::new(test_config());
    for (who, amount) in [(ALICE, 10u128), (BOB, 20), (ALICE, 30)] {
        let (id, _) = v.deposit(who, TokenType::WNEAR, amount, 0).unwrap();
        v.resolve_deposit_callback(id, true, 1).unwrap();
        let (wid, _) = v.withdraw(who, TokenType::WNEAR, amount, 2).unwrap();
        v.resolve_withdraw_callback(wid, true, 3).unwrap();
    }
    let alice_events = v.get_events_for_account(ALICE, 100);
    assert_eq!(alice_events.len(), 4);
    assert!(alice_events.iter().all(|e| e.account == ALICE));
    let bob_events = v.get_events_for_account(BOB, 1);
    assert_eq!(bob_events.len(), 1);
    assert!(matches!(bob_events[0].kind, EventKind::Withdrawn));
    assert_eq!(bob_events[0].amount, 20);
}

#[test]
fn adapter_binding_is_invertible() {
    let v = Vault::new(test_config());
    let config = v.get_config();
    assert!(matches!(config.asset_of_adapter(100), Some(TokenType::WNEAR)));
    assert!(matches!(config.asset_of_adapter(101), Some(TokenType::USDC)));
    assert!(matches!(config.asset_of_adapter(102), Some(TokenType::USDT)));
    assert!(config.asset_of_adapter(999).is_none());
}

#[test]
fn total_shares_sums_across_assets() {
    let mut v = Vault::new(test_config());
    for (asset, amount) in [
        (TokenType::WNEAR, 5u128),
        (TokenType::USDC, 7),
        (TokenType::USDT, 11),
    ] {
        let (id, _) = v.deposit(ALICE, asset, amount, 0).unwrap();
        v.resolve_deposit_callback(id, true, 1).unwrap();
    }
    assert_eq!(v.get_total_shares(ALICE), Some(23));
    assert_eq!(v.get_total_shares(BOB), Some(0));
}

#[test]
fn event_queries_filter_and_limit() {
    let mut v = Vault::new(test_config());
    for k in 0..5u128 {
        let (id, _) = v.deposit(ALICE, TokenType::WNEAR, 10 + k, k as u64).unwrap();
        v.resolve_deposit_callback(id, true, 100 + k as u64).unwrap();
        let (wid, _) = v.withdraw(ALICE, TokenType::WNEAR, 1, 200 + k as u64).unwrap();
        v.resolve_withdraw_callback(wid, k % 2 == 0, 300 + k as u64).unwrap();
    }
    // Ten events in all, oldest first.
    let all = v.get_events(100);
    assert_eq!(all.len(), 10);
    assert!(matches!(all[0].kind, EventKind::Deposited));
    assert_eq!(all[0].amount, 10);
    // The three most recent, still oldest first.
    let recent = v.get_events(3);
    assert_eq!(recent.len(), 3);
    assert_eq!(recent[2].timestamp, 304);
    // Filtered by kind: failures happened for odd k.
    let failed = v.get_events_of_kind(EventKind::Failed, 100);
    assert_eq!(failed.len(), 2);
    assert_eq!(failed[0].timestamp, 301);
    assert_eq!(failed[1].timestamp, 303);
    let deposited = v.get_events_of_kind(EventKind::Deposited, 2);
    assert_eq!(deposited.len(), 2);
    assert_eq!(deposited[0].amount, 13);
    assert_eq!(deposited[1].amount, 14);
}
