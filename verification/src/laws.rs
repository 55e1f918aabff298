//! The laws of the vault core, stated over the service's transition
//! predicates and proved once and for all.
//!
//! Every public operation of `Vault` ensures the invariant `Vault::inv`,
//! so the two invariant laws below hold after every operation; the
//! remaining laws compose the transition predicates that the operations'
//! contracts establish.

use vstd::prelude::*;
use crate::asset::{AccountId, TokenType};
use crate::errors::VaultError;
use crate::ledger::{entry_sum, lemma_entry_balance_le_sum};
use crate::settlement::{Direction, PendingSettlement, SettlementState, TransferInstruction,
    spec_find_id};
use crate::vault::{
    Vault, deposit_begun, deposit_confirmed, deposit_failed, withdraw_begun, withdraw_compensated,
    withdraw_confirmed,
};

verus! {

/// Conservation of shares: in every well-formed vault state — and every
/// operation ensures well-formedness — the share balances of each asset
/// sum exactly to that asset's total supply.
pub proof fn lemma_shares_conserved(v: Vault, asset: TokenType)
    requires
        v.inv(),
    ensures
        entry_sum(v.ledger.entries@, asset) == v.supply(asset) as int,
{
}

/// The reserve never goes negative: it is carried in an unsigned domain,
/// and `ReserveTracker::debit` rejects any debit that exceeds the balance
/// before touching it, so zero is never crossed.
pub proof fn lemma_reserve_never_negative(v: Vault, asset: TokenType)
    ensures
        v.reserve(asset) as int >= 0,
{
}

/// No double-spend: while a withdrawal (or any settlement) is open for an
/// (account, asset) pair, a second `withdraw` on the same pair is rejected
/// with `SettlementInProgress`, whatever amount it names — and `withdraw`'s
/// own contract says every rejected call leaves the state unchanged.
pub proof fn lemma_no_double_withdraw(
    s0: Vault,
    s1: Vault,
    account: AccountId,
    asset: TokenType,
    amount: u128,
    id: u64,
    instr: TransferInstruction,
    now: u64,
    amount2: u128,
)
    requires
        withdraw_begun(s0, s1, account, asset, amount, id, instr, now),
    ensures
        s1.withdraw_err(account, asset, amount2) == Some(VaultError::SettlementInProgress),
{
    assert(s1.settlement_open(account, asset));
}

/// Compensation correctness: a withdrawal that is opened and then resolved
/// as failed leaves every share balance, every total supply and every
/// reserve exactly as they were before the withdrawal was opened.
pub proof fn lemma_compensation_restores(
    s0: Vault,
    s1: Vault,
    s2: Vault,
    account: AccountId,
    asset: TokenType,
    amount: u128,
    id: u64,
    instr: TransferInstruction,
    now1: u64,
    now2: u64,
)
    requires
        withdraw_begun(s0, s1, account, asset, amount, id, instr, now1),
        withdraw_compensated(s1, s2, id, now2),
    ensures
        forall|acc2: AccountId, a2: TokenType| #[trigger] s2.shares(acc2, a2) == s0.shares(
            acc2,
            a2,
        ),
        forall|a2: TokenType| #[trigger] s2.supply(a2) == s0.supply(a2),
        forall|a2: TokenType| #[trigger] s2.reserve(a2) == s0.reserve(a2),
{
    let rec = PendingSettlement {
        id,
        account,
        asset,
        amount,
        direction: Direction::Withdraw,
        state: SettlementState::AwaitingExternalConfirmation,
        created_at: now1,
    };
    assert(s1.open_settlements().last() == rec);
    assert(spec_find_id(s1.open_settlements(), id) == Some(rec));
    // The burned amount fits in the supply: the balance it came out of is
    // at most the supply by conservation.
    lemma_entry_balance_le_sum(s0.ledger.entries@, account, asset);
    assert(s0.supply(asset) == entry_sum(s0.ledger.entries@, asset));
    assert forall|acc2: AccountId, a2: TokenType| #[trigger] s2.shares(acc2, a2) == s0.shares(
        acc2,
        a2,
    ) by {
        assert(s1.shares(acc2, a2) == if acc2 == account && a2 == asset {
            (s0.shares(account, asset) - amount) as u128
        } else {
            s0.shares(acc2, a2)
        });
        assert(s2.shares(acc2, a2) == if acc2 == rec.account && a2 == rec.asset {
            (s1.shares(rec.account, rec.asset) + rec.amount) as u128
        } else {
            s1.shares(acc2, a2)
        });
    }
    assert forall|a2: TokenType| #[trigger] s2.supply(a2) == s0.supply(a2) by {
        assert(s1.supply(a2) == if a2 == asset {
            (s0.supply(asset) - amount) as u128
        } else {
            s0.supply(a2)
        });
        assert(s2.supply(a2) == if a2 == rec.asset {
            (s1.supply(rec.asset) + rec.amount) as u128
        } else {
            s1.supply(a2)
        });
    }
    assert forall|a2: TokenType| #[trigger] s2.reserve(a2) == s0.reserve(a2) by {
        assert(s1.reserve(a2) == if a2 == asset {
            (s0.reserve(asset) - amount) as u128
        } else {
            s0.reserve(a2)
        });
        assert(s2.reserve(a2) == if a2 == rec.asset {
            (s1.reserve(rec.asset) + rec.amount) as u128
        } else {
            s1.reserve(a2)
        });
    }
}

/// A failed deposit mutates no accounting state: after its failure
/// resolution every share balance, total supply and reserve is exactly
/// what it was before the deposit was opened.  Only a `Failed` event is
/// recorded.  Together with `lemma_compensation_restores` this says that
/// failed settlements of either direction never move the ledger.
pub proof fn lemma_failed_deposit_preserves_state(
    s0: Vault,
    s1: Vault,
    s2: Vault,
    account: AccountId,
    asset: TokenType,
    amount: u128,
    id: u64,
    instr: TransferInstruction,
    now1: u64,
    now2: u64,
)
    requires
        deposit_begun(s0, s1, account, asset, amount, id, instr, now1),
        deposit_failed(s1, s2, id, now2),
    ensures
        forall|acc2: AccountId, a2: TokenType| #[trigger] s2.shares(acc2, a2) == s0.shares(
            acc2,
            a2,
        ),
        forall|a2: TokenType| #[trigger] s2.supply(a2) == s0.supply(a2),
        forall|a2: TokenType| #[trigger] s2.reserve(a2) == s0.reserve(a2),
{
}

/// Round-trip: a deposit that confirms, followed by a withdrawal of the
/// same amount that confirms, yields net-zero change — every share
/// balance, total supply and reserve ends exactly where it began.
pub proof fn lemma_deposit_withdraw_round_trip(
    s0: Vault,
    s1: Vault,
    s2: Vault,
    s3: Vault,
    s4: Vault,
    account: AccountId,
    asset: TokenType,
    amount: u128,
    id1: u64,
    instr1: TransferInstruction,
    now1: u64,
    now2: u64,
    id2: u64,
    instr2: TransferInstruction,
    now3: u64,
    now4: u64,
)
    requires
        deposit_begun(s0, s1, account, asset, amount, id1, instr1, now1),
        deposit_confirmed(s1, s2, id1, now2),
        withdraw_begun(s2, s3, account, asset, amount, id2, instr2, now3),
        withdraw_confirmed(s3, s4, id2, now4),
    ensures
        forall|acc2: AccountId, a2: TokenType| #[trigger] s4.shares(acc2, a2) == s0.shares(
            acc2,
            a2,
        ),
        forall|a2: TokenType| #[trigger] s4.supply(a2) == s0.supply(a2),
        forall|a2: TokenType| #[trigger] s4.reserve(a2) == s0.reserve(a2),
{
    let rec = PendingSettlement {
        id: id1,
        account,
        asset,
        amount,
        direction: Direction::Deposit,
        state: SettlementState::AwaitingExternalConfirmation,
        created_at: now1,
    };
    assert(s1.open_settlements().last() == rec);
    assert(spec_find_id(s1.open_settlements(), id1) == Some(rec));
    // The minted balance cannot truncate: the balance is at most the
    // supply, and the confirmation checked that the supply has room.
    lemma_entry_balance_le_sum(s1.ledger.entries@, account, asset);
    assert(s1.supply(asset) == entry_sum(s1.ledger.entries@, asset));
    assert forall|acc2: AccountId, a2: TokenType| #[trigger] s4.shares(acc2, a2) == s0.shares(
        acc2,
        a2,
    ) by {
        assert(s2.shares(acc2, a2) == if acc2 == rec.account && a2 == rec.asset {
            (s1.shares(rec.account, rec.asset) + rec.amount) as u128
        } else {
            s1.shares(acc2, a2)
        });
        assert(s3.shares(acc2, a2) == if acc2 == account && a2 == asset {
            (s2.shares(account, asset) - amount) as u128
        } else {
            s2.shares(acc2, a2)
        });
    }
    assert forall|a2: TokenType| #[trigger] s4.supply(a2) == s0.supply(a2) by {
        assert(s2.supply(a2) == if a2 == rec.asset {
            (s1.supply(rec.asset) + rec.amount) as u128
        } else {
            s1.supply(a2)
        });
        assert(s3.supply(a2) == if a2 == asset {
            (s2.supply(asset) - amount) as u128
        } else {
            s2.supply(a2)
        });
    }
    assert forall|a2: TokenType| #[trigger] s4.reserve(a2) == s0.reserve(a2) by {
        assert(s2.reserve(a2) == if a2 == rec.asset {
            (s1.reserve(rec.asset) + rec.amount) as u128
        } else {
            s1.reserve(a2)
        });
        assert(s3.reserve(a2) == if a2 == asset {
            (s2.reserve(asset) - amount) as u128
        } else {
            s2.reserve(a2)
        });
    }
}

} // verus!
