//! Unit tests of the individual components of vault_core.

use vault_core::asset::TokenType;
use vault_core::errors::VaultError;
use vault_core::events::{EventKind, EventLog, SettlementEvent};
use vault_core::ledger::ShareLedger;
use vault_core::reserve::ReserveTracker;
use vault_core::strategy::YieldStrategy;

const ALICE: u64 = 10;
const BOB: u64 = 11;

#[test]
fn ledger_mint_and_burn_track_balances_and_supply() {
    let mut l = ShareLedger::new();
    assert_eq!(l.balance_of(ALICE, TokenType::WNEAR), 0);
    assert_eq!(l.total_supply(TokenType::WNEAR), 0);

    l.mint(ALICE, TokenType::WNEAR, 100).unwrap();
    l.mint(BOB, TokenType::WNEAR, 30).unwrap();
    l.mint(ALICE, TokenType::USDC, 7).unwrap();
    assert_eq!(l.balance_of(ALICE, TokenType::WNEAR), 100);
    assert_eq!(l.balance_of(BOB, TokenType::WNEAR), 30);
    assert_eq!(l.balance_of(ALICE, TokenType::USDC), 7);
    assert_eq!(l.total_supply(TokenType::WNEAR), 130);
    assert_eq!(l.total_supply(TokenType::USDC), 7);
    assert_eq!(l.total_supply(TokenType::USDT), 0);

    l.burn(ALICE, TokenType::WNEAR, 40).unwrap();
    assert_eq!(l.balance_of(ALICE, TokenType::WNEAR), 60);
    assert_eq!(l.total_supply(TokenType::WNEAR), 90);
}

#[test]
fn ledger_burn_rejects_more_than_the_balance() {
    let mut l = ShareLedger::new();
    l.mint(ALICE, TokenType::USDT, 5).unwrap();
    assert_eq!(
        l.burn(ALICE, TokenType::USDT, 6).unwrap_err(),
        VaultError::InsufficientShares
    );
    assert_eq!(
        l.burn(BOB, TokenType::USDT, 1).unwrap_err(),
        VaultError::InsufficientShares
    );
    assert_eq!(l.balance_of(ALICE, TokenType::USDT), 5);
    assert_eq!(l.total_supply(TokenType::USDT), 5);
}

#[test]
fn ledger_mint_rejects_supply_overflow() {
    let mut l = ShareLedger::new();
    l.mint(ALICE, TokenType::WNEAR, u128::MAX - 1).unwrap();
    assert_eq!(
        l.mint(BOB, TokenType::WNEAR, 2).unwrap_err(),
        VaultError::Overflow
    );
    // Nothing moved on the failed mint.
    assert_eq!(l.balance_of(BOB, TokenType::WNEAR), 0);
    assert_eq!(l.total_supply(TokenType::WNEAR), u128::MAX - 1);
    // The last unit still fits.
    l.mint(BOB, TokenType::WNEAR, 1).unwrap();
    assert_eq!(l.total_supply(TokenType::WNEAR), u128::MAX);
}

#[test]
fn reserve_credit_and_debit() {
    let mut r = ReserveTracker::new();
    assert_eq!(r.balance(TokenType::USDC), 0);
    r.credit(TokenType::USDC, 500).unwrap();
    assert_eq!(r.balance(TokenType::USDC), 500);
    assert_eq!(r.balance(TokenType::WNEAR), 0);

    r.debit(TokenType::USDC, 200).unwrap();
    assert_eq!(r.balance(TokenType::USDC), 300);

    // A debit past zero is rejected before any change.
    assert_eq!(
        r.debit(TokenType::USDC, 301).unwrap_err(),
        VaultError::InsufficientReserve
    );
    assert_eq!(r.balance(TokenType::USDC), 300);

    // A credit past the numeric domain is rejected before any change.
    assert_eq!(
        r.credit(TokenType::USDC, u128::MAX).unwrap_err(),
        VaultError::Overflow
    );
    assert_eq!(r.balance(TokenType::USDC), 300);
}

fn sample_event(kind: EventKind, timestamp: u64) -> SettlementEvent {
    SettlementEvent {
        kind,
        account: ALICE,
        asset: TokenType::WNEAR,
        amount: 1,
        share_delta: 1,
        timestamp,
    }
}

#[test]
fn event_log_evicts_oldest_when_full() {
    let mut log = EventLog::new(2);
    log.append(sample_event(EventKind::Deposited, 1));
    log.append(sample_event(EventKind::Withdrawn, 2));
    assert_eq!(log.len(), 2);
    log.append(sample_event(EventKind::Failed, 3));
    assert_eq!(log.len(), 2);
    let all = log.query(10, 0);
    assert_eq!(all[0].timestamp, 2);
    assert_eq!(all[1].timestamp, 3);
}

#[test]
fn event_log_query_limit_and_offset() {
    let mut log = EventLog::new(10);
    for t in 1..=5u64 {
        log.append(sample_event(EventKind::Deposited, t));
    }
    // The two newest, oldest first.
    let two = log.query(2, 0);
    assert_eq!(two.len(), 2);
    assert_eq!(two[0].timestamp, 4);
    assert_eq!(two[1].timestamp, 5);
    // Skip the newest, then take two.
    let offset = log.query(2, 1);
    assert_eq!(offset[0].timestamp, 3);
    assert_eq!(offset[1].timestamp, 4);
    // Limits beyond the log are harmless.
    assert_eq!(log.query(99, 0).len(), 5);
    assert_eq!(log.query(2, 99).len(), 0);
}

#[test]
fn strategy_metadata() {
    assert_eq!(
        YieldStrategy::Staking.get_description(),
        "Stake wNEAR to earn NEAR rewards"
    );
    assert_eq!(
        YieldStrategy::Lending.get_description(),
        "Lend USDC to earn interest"
    );
    assert_eq!(
        YieldStrategy::LiquidityProvision.get_description(),
        "Provide liquidity for trading fees"
    );
    assert_eq!(YieldStrategy::Staking.get_expected_apy(), 12);
    assert_eq!(YieldStrategy::Lending.get_expected_apy(), 8);
    assert_eq!(YieldStrategy::LiquidityProvision.get_expected_apy(), 15);
}
