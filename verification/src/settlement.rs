//! The settlement coordinator: the asynchronous two-phase state machine.
//!
//! A deposit or withdrawal spans a local ledger mutation and an external
//! transfer leg.  `begin_*` opens a `PendingSettlement` and hands back the
//! transfer instruction to issue; the external custody adapter later reports
//! the outcome through `resolve_*`.  At most one settlement may be open per
//! (account, asset) pair — that rule is the entire concurrency control, so
//! it is enforced explicitly here.
//!
//! Deposits confirm before they credit: nothing is minted until the inbound
//! transfer is confirmed.  Withdrawals debit speculatively: shares are
//! burned and the reserve debited at `begin_withdraw`, so a second
//! withdrawal cannot spend the same shares while the external leg is
//! outstanding; a failed leg is compensated by the exact inverse mutation.

use vstd::prelude::*;
use crate::asset::{AccountId, TokenType};
use crate::errors::VaultError;
use crate::events::{EventKind, EventLog, SettlementEvent};
use crate::ledger::ShareLedger;
use crate::reserve::ReserveTracker;

verus! {

/// Which way a settlement moves funds.
#[derive(Clone, Copy, PartialEq, Eq, Structural, Debug)]
pub enum Direction {
    Deposit,
    Withdraw,
}

/// The lifecycle of a settlement.  Records held by the coordinator are
/// always awaiting confirmation: a record reaches a terminal state and is
/// dropped within the same resolution step.
#[derive(Clone, Copy, PartialEq, Eq, Structural, Debug)]
pub enum SettlementState {
    Initiated,
    AwaitingExternalConfirmation,
    Confirmed,
    Failed,
}

/// One open settlement: the mutual-exclusion unit spanning the local and
/// the external leg of a deposit or withdrawal.
#[derive(Clone, Copy, PartialEq, Eq, Structural, Debug)]
pub struct PendingSettlement {
    pub id: u64,
    pub account: AccountId,
    pub asset: TokenType,
    pub amount: u128,
    pub direction: Direction,
    pub state: SettlementState,
    pub created_at: u64,
}

/// The external-transfer instruction a `begin_*` call hands back; the host
/// issues it to the named custody adapter and reports the outcome.
#[derive(Clone, Copy, PartialEq, Eq, Structural, Debug)]
pub struct TransferInstruction {
    pub direction: Direction,
    pub adapter: AccountId,
    pub asset: TokenType,
    pub amount: u128,
}

/// Whether a settlement is open for the (account, asset) pair.
pub open spec fn pair_open(s: Seq<PendingSettlement>, account: AccountId, asset: TokenType) -> bool {
    exists|i: int|
        0 <= i < s.len() && (#[trigger] s[i]).account == account && s[i].asset == asset
}

/// The first open settlement with this id, if any.
pub open spec fn spec_find_id(s: Seq<PendingSettlement>, id: u64) -> Option<PendingSettlement>
    decreases s.len(),
{
    if s.len() == 0 {
        None
    } else if s.first().id == id {
        Some(s.first())
    } else {
        spec_find_id(s.drop_first(), id)
    }
}

/// No two open settlements share an id.
pub open spec fn unique_ids(s: Seq<PendingSettlement>) -> bool {
    forall|i: int, j: int|
        #![trigger s[i], s[j]]
        0 <= i < j < s.len() ==> s[i].id != s[j].id
}

/// No two open settlements share an (account, asset) pair.
pub open spec fn unique_pairs(s: Seq<PendingSettlement>) -> bool {
    forall|i: int, j: int|
        #![trigger s[i], s[j]]
        0 <= i < j < s.len() ==> !(s[i].account == s[j].account && s[i].asset == s[j].asset)
}

/// If `s[i]` is the first record with its id, `spec_find_id` yields it.
pub proof fn lemma_spec_find_id_at(s: Seq<PendingSettlement>, i: int, id: u64)
    requires
        0 <= i < s.len(),
        s[i].id == id,
        forall|j: int| 0 <= j < i ==> (#[trigger] s[j]).id != id,
    ensures
        spec_find_id(s, id) == Some(s[i]),
    decreases i,
{
    if i == 0 {
        assert(s.first() == s[0]);
    } else {
        assert(s.first() == s[0]);
        assert(s.drop_first()[i - 1] == s[i]);
        assert forall|j: int| 0 <= j < i - 1 implies (#[trigger] s.drop_first()[j]).id != id by {
            assert(s.drop_first()[j] == s[j + 1]);
        }
        lemma_spec_find_id_at(s.drop_first(), i - 1, id);
    }
}

/// If no record carries the id, `spec_find_id` yields nothing.
pub proof fn lemma_spec_find_id_absent(s: Seq<PendingSettlement>, id: u64)
    requires
        forall|j: int| 0 <= j < s.len() ==> (#[trigger] s[j]).id != id,
    ensures
        spec_find_id(s, id) == None::<PendingSettlement>,
    decreases s.len(),
{
    if s.len() > 0 {
        assert(s.first() == s[0]);
        assert forall|j: int| 0 <= j < s.drop_first().len() implies (#[trigger] s.drop_first()[j]).id
            != id by {
            assert(s.drop_first()[j] == s[j + 1]);
        }
        lemma_spec_find_id_absent(s.drop_first(), id);
    }
}

/// Removing a record closes exactly its pair: every other pair stays as it
/// was (the pairs are unique, so no second record can keep it open).
pub proof fn lemma_remove_pair_open(s: Seq<PendingSettlement>, i: int)
    requires
        unique_pairs(s),
        0 <= i < s.len(),
    ensures
        forall|account: AccountId, asset: TokenType|
            #[trigger] pair_open(s.remove(i), account, asset) == (pair_open(s, account, asset)
                && !(account == s[i].account && asset == s[i].asset)),
{
    s.remove_ensures(i);
    let t = s.remove(i);
    assert forall|account: AccountId, asset: TokenType|
        #[trigger] pair_open(t, account, asset) == (pair_open(s, account, asset) && !(account
            == s[i].account && asset == s[i].asset)) by {
        if pair_open(t, account, asset) {
            let j = choose|j: int|
                0 <= j < t.len() && (#[trigger] t[j]).account == account && t[j].asset == asset;
            if j < i {
                assert(s[j] == t[j]);
            } else {
                assert(s[j + 1] == t[j]);
            }
            assert(pair_open(s, account, asset));
            if account == s[i].account && asset == s[i].asset {
                // Two distinct records of s would share the pair.
                if j < i {
                    assert(!(s[j].account == s[i].account && s[j].asset == s[i].asset));
                } else {
                    assert(!(s[i].account == s[j + 1].account && s[i].asset == s[j + 1].asset));
                }
            }
        }
        if pair_open(s, account, asset) && !(account == s[i].account && asset == s[i].asset) {
            let j = choose|j: int|
                0 <= j < s.len() && (#[trigger] s[j]).account == account && s[j].asset == asset;
            assert(j != i);
            if j < i {
                assert(t[j] == s[j]);
                assert(pair_open(t, account, asset));
            } else {
                assert(t[j - 1] == s[j]);
                assert(pair_open(t, account, asset));
            }
        }
    }
}

/// Orchestrates deposits and withdrawals as two-phase settlements.  Owns
/// the set of open settlements; the ledger and reserve it mutates are
/// passed in by the vault service that owns them.
pub struct SettlementCoordinator {
    pub pending: Vec<PendingSettlement>,
    pub next_id: u64,
}

impl SettlementCoordinator {
    /// The open settlements.
    pub open spec fn open_set(self) -> Seq<PendingSettlement> {
        self.pending@
    }

    /// Well-formedness: ids and pairs are unique, ids stay below the next
    /// one to be issued, and every held record awaits confirmation.
    pub open spec fn wf(self) -> bool {
        &&& unique_ids(self.pending@)
        &&& unique_pairs(self.pending@)
        &&& forall|i: int|
            0 <= i < self.pending@.len() ==> (#[trigger] self.pending@[i]).id < self.next_id
        &&& forall|i: int|
            0 <= i < self.pending@.len() ==> (#[trigger] self.pending@[i]).state
                == SettlementState::AwaitingExternalConfirmation
        &&& self.next_id >= 1
    }

    /// A coordinator with nothing open; the first settlement gets id 1.
    pub fn new() -> (r: Self)
        ensures
            r.wf(),
            r.open_set() == Seq::<PendingSettlement>::empty(),
            r.next_id == 1,
    {
        SettlementCoordinator { pending: Vec::new(), next_id: 1 }
    }

    /// Whether a settlement is open for (account, asset).
    pub fn is_pair_open(&self, account: AccountId, asset: TokenType) -> (r: bool)
        ensures
            r == pair_open(self.pending@, account, asset),
    {
        let n: usize = self.pending.len();
        let mut k: usize = 0;
        while k < n
            invariant
                n == self.pending@.len(),
                k <= n,
                forall|j: int|
                    0 <= j < k ==> !((#[trigger] self.pending@[j]).account == account
                        && self.pending@[j].asset == asset),
            decreases n - k,
        {
            let p = self.pending[k];
            if p.account == account && p.asset == asset {
                return true;
            }
            k = k + 1;
        }
        false
    }

    /// The index of the open settlement with this id, if any.
    fn find_index_by_id(&self, id: u64) -> (r: Option<usize>)
        ensures
            match r {
                Some(i) => {
                    &&& i < self.pending@.len()
                    &&& self.pending@[i as int].id == id
                    &&& forall|j: int| 0 <= j < i ==> (#[trigger] self.pending@[j]).id != id
                },
                None => forall|j: int|
                    0 <= j < self.pending@.len() ==> (#[trigger] self.pending@[j]).id != id,
            },
    {
        let n: usize = self.pending.len();
        let mut k: usize = 0;
        while k < n
            invariant
                n == self.pending@.len(),
                k <= n,
                forall|j: int| 0 <= j < k ==> (#[trigger] self.pending@[j]).id != id,
            decreases n - k,
        {
            if self.pending[k].id == id {
                return Some(k);
            }
            k = k + 1;
        }
        None
    }

    /// The open settlement with this id, if any.
    pub fn get_by_id(&self, id: u64) -> (r: Option<PendingSettlement>)
        ensures
            r == spec_find_id(self.pending@, id),
    {
        match self.find_index_by_id(id) {
            Some(i) => {
                proof {
                    lemma_spec_find_id_at(self.pending@, i as int, id);
                }
                Some(self.pending[i])
            }
            None => {
                proof {
                    lemma_spec_find_id_absent(self.pending@, id);
                }
                None
            }
        }
    }

    /// Why `begin_deposit` would reject, checked in this order; nothing if
    /// it would succeed.
    pub open spec fn begin_deposit_err(
        self,
        account: AccountId,
        asset: TokenType,
        amount: u128,
    ) -> Option<VaultError> {
        if pair_open(self.pending@, account, asset) {
            Some(VaultError::SettlementInProgress)
        } else if amount == 0 {
            Some(VaultError::ZeroAmount)
        } else if self.next_id == u64::MAX {
            Some(VaultError::Overflow)
        } else {
            None
        }
    }

    /// Opens a deposit settlement: no shares are minted and no reserve is
    /// credited yet — the record only reserves the (account, asset) slot
    /// until the inbound transfer is confirmed or fails.  Returns the new
    /// id and the instruction to issue to `adapter`.
    pub fn begin_deposit(
        &mut self,
        account: AccountId,
        asset: TokenType,
        amount: u128,
        adapter: AccountId,
        now: u64,
    ) -> (r: Result<(u64, TransferInstruction), VaultError>)
        requires
            old(self).wf(),
        ensures
            final(self).wf(),
            match r {
                Ok((id, instr)) => {
                    &&& old(self).begin_deposit_err(account, asset, amount) is None
                    &&& id == old(self).next_id
                    &&& final(self).next_id == old(self).next_id + 1
                    &&& final(self).pending@ == old(self).pending@.push(
                        PendingSettlement {
                            id,
                            account,
                            asset,
                            amount,
                            direction: Direction::Deposit,
                            state: SettlementState::AwaitingExternalConfirmation,
                            created_at: now,
                        },
                    )
                    &&& spec_find_id(final(self).pending@, id) == Some(
                        final(self).pending@.last(),
                    )
                    &&& forall|acc2: AccountId, a2: TokenType|
                        #[trigger] pair_open(final(self).pending@, acc2, a2) == (pair_open(
                            old(self).pending@,
                            acc2,
                            a2,
                        ) || (acc2 == account && a2 == asset))
                    &&& instr == (TransferInstruction {
                        direction: Direction::Deposit,
                        adapter,
                        asset,
                        amount,
                    })
                },
                Err(e) => {
                    &&& Some(e) == old(self).begin_deposit_err(account, asset, amount)
                    &&& *final(self) == *old(self)
                },
            },
    {
        if self.is_pair_open(account, asset) {
            return Err(VaultError::SettlementInProgress);
        }
        if amount == 0 {
            return Err(VaultError::ZeroAmount);
        }
        if self.next_id == u64::MAX {
            return Err(VaultError::Overflow);
        }
        let id: u64 = self.next_id;
        let rec = PendingSettlement {
            id,
            account,
            asset,
            amount,
            direction: Direction::Deposit,
            state: SettlementState::AwaitingExternalConfirmation,
            created_at: now,
        };
        let ghost s0 = self.pending@;
        self.pending.push(rec);
        self.next_id = id + 1;
        proof {
            self.lemma_after_push(s0, rec, account, asset);
        }
        Ok((id, TransferInstruction { direction: Direction::Deposit, adapter, asset, amount }))
    }

    /// The facts shared by both `begin_*` success paths: pushing a fresh
    /// record with a fresh id keeps the coordinator well-formed, makes the
    /// record findable by its id, and opens exactly its pair.
    proof fn lemma_after_push(
        self,
        s0: Seq<PendingSettlement>,
        rec: PendingSettlement,
        account: AccountId,
        asset: TokenType,
    )
        requires
            unique_ids(s0),
            unique_pairs(s0),
            forall|i: int| 0 <= i < s0.len() ==> (#[trigger] s0[i]).id < rec.id,
            forall|i: int|
                0 <= i < s0.len() ==> (#[trigger] s0[i]).state
                    == SettlementState::AwaitingExternalConfirmation,
            !pair_open(s0, account, asset),
            rec.account == account,
            rec.asset == asset,
            rec.state == SettlementState::AwaitingExternalConfirmation,
            rec.id < self.next_id,
            self.next_id >= 1,
            self.pending@ == s0.push(rec),
        ensures
            self.wf(),
            spec_find_id(self.pending@, rec.id) == Some(self.pending@.last()),
            forall|acc2: AccountId, a2: TokenType|
                #[trigger] pair_open(self.pending@, acc2, a2) == (pair_open(s0, acc2, a2) || (acc2
                    == account && a2 == asset)),
    {
        let s = self.pending@;
        assert forall|i: int, j: int|
            #![trigger s[i], s[j]]
            0 <= i < j < s.len() implies s[i].id != s[j].id && !(s[i].account == s[j].account
            && s[i].asset == s[j].asset) by {
            if j < s.len() - 1 {
                assert(s[i] == s0[i] && s[j] == s0[j]);
            } else {
                assert(s[i] == s0[i] && s[j] == rec);
                if s0[i].account == account && s0[i].asset == asset {
                    assert(pair_open(s0, account, asset));
                }
            }
        }
        assert forall|j: int| 0 <= j < s.len() - 1 implies (#[trigger] s[j]).id != rec.id by {
            assert(s[j] == s0[j]);
        }
        lemma_spec_find_id_at(s, s.len() - 1, rec.id);
        assert forall|acc2: AccountId, a2: TokenType|
            #[trigger] pair_open(s, acc2, a2) == (pair_open(s0, acc2, a2) || (acc2 == account && a2
                == asset)) by {
            if pair_open(s, acc2, a2) {
                let j = choose|j: int|
                    0 <= j < s.len() && (#[trigger] s[j]).account == acc2 && s[j].asset == a2;
                if j < s.len() - 1 {
                    assert(s0[j] == s[j]);
                    assert(pair_open(s0, acc2, a2));
                }
            }
            if pair_open(s0, acc2, a2) {
                let j = choose|j: int|
                    0 <= j < s0.len() && (#[trigger] s0[j]).account == acc2 && s0[j].asset == a2;
                assert(s[j] == s0[j]);
                assert(pair_open(s, acc2, a2));
            }
            if acc2 == account && a2 == asset {
                assert(s[s.len() - 1] == rec);
                assert(pair_open(s, acc2, a2));
            }
        }
    }

    /// Why `begin_withdraw` would reject, checked in this order against the
    /// current ledger and reserve; nothing if it would succeed.
    pub open spec fn begin_withdraw_err(
        self,
        ledger: ShareLedger,
        reserves: ReserveTracker,
        account: AccountId,
        asset: TokenType,
        amount: u128,
    ) -> Option<VaultError> {
        if pair_open(self.pending@, account, asset) {
            Some(VaultError::SettlementInProgress)
        } else if amount == 0 {
            Some(VaultError::ZeroAmount)
        } else if ledger.spec_balance(account, asset) < amount {
            Some(VaultError::InsufficientShares)
        } else if reserves.spec_balance(asset) < amount {
            Some(VaultError::InsufficientReserve)
        } else if self.next_id == u64::MAX {
            Some(VaultError::Overflow)
        } else {
            None
        }
    }

    /// Opens a withdrawal settlement and applies the speculative mutation:
    /// `amount` shares are burned and the reserve is debited at once, so no
    /// second withdrawal can spend them while the external leg is
    /// outstanding.  Returns the new id and the outbound instruction.
    pub fn begin_withdraw(
        &mut self,
        ledger: &mut ShareLedger,
        reserves: &mut ReserveTracker,
        account: AccountId,
        asset: TokenType,
        amount: u128,
        adapter: AccountId,
        now: u64,
    ) -> (r: Result<(u64, TransferInstruction), VaultError>)
        requires
            old(self).wf(),
            old(ledger).wf(),
        ensures
            final(self).wf(),
            final(ledger).wf(),
            match r {
                Ok((id, instr)) => {
                    &&& old(self).begin_withdraw_err(
                        *old(ledger),
                        *old(reserves),
                        account,
                        asset,
                        amount,
                    ) is None
                    &&& id == old(self).next_id
                    &&& final(self).next_id == old(self).next_id + 1
                    &&& final(self).pending@ == old(self).pending@.push(
                        PendingSettlement {
                            id,
                            account,
                            asset,
                            amount,
                            direction: Direction::Withdraw,
                            state: SettlementState::AwaitingExternalConfirmation,
                            created_at: now,
                        },
                    )
                    &&& spec_find_id(final(self).pending@, id) == Some(
                        final(self).pending@.last(),
                    )
                    &&& forall|acc2: AccountId, a2: TokenType|
                        #[trigger] pair_open(final(self).pending@, acc2, a2) == (pair_open(
                            old(self).pending@,
                            acc2,
                            a2,
                        ) || (acc2 == account && a2 == asset))
                    &&& forall|acc2: AccountId, a2: TokenType|
                        #[trigger] final(ledger).spec_balance(acc2, a2) == if acc2 == account && a2
                            == asset {
                            (old(ledger).spec_balance(account, asset) - amount) as u128
                        } else {
                            old(ledger).spec_balance(acc2, a2)
                        }
                    &&& forall|a2: TokenType| #[trigger] final(ledger).spec_supply(a2) == if a2
                        == asset {
                        (old(ledger).spec_supply(asset) - amount) as u128
                    } else {
                        old(ledger).spec_supply(a2)
                    }
                    &&& forall|a2: TokenType| #[trigger] final(reserves).spec_balance(a2) == if a2
                        == asset {
                        (old(reserves).spec_balance(asset) - amount) as u128
                    } else {
                        old(reserves).spec_balance(a2)
                    }
                    &&& instr == (TransferInstruction {
                        direction: Direction::Withdraw,
                        adapter,
                        asset,
                        amount,
                    })
                },
                Err(e) => {
                    &&& Some(e) == old(self).begin_withdraw_err(
                        *old(ledger),
                        *old(reserves),
                        account,
                        asset,
                        amount,
                    )
                    &&& *final(self) == *old(self)
                    &&& *final(ledger) == *old(ledger)
                    &&& *final(reserves) == *old(reserves)
                },
            },
    {
        if self.is_pair_open(account, asset) {
            return Err(VaultError::SettlementInProgress);
        }
        if amount == 0 {
            return Err(VaultError::ZeroAmount);
        }
        if ledger.balance_of(account, asset) < amount {
            return Err(VaultError::InsufficientShares);
        }
        if reserves.balance(asset) < amount {
            return Err(VaultError::InsufficientReserve);
        }
        if self.next_id == u64::MAX {
            return Err(VaultError::Overflow);
        }
        match ledger.burn(account, asset, amount) {
            Ok(()) => {}
            Err(e) => {
                // The checks above meet the callee's success conditions,
                // so its contract rules this arm out.
                proof {
                    assert(false);
                }
                return Err(e);
            }
        }
        match reserves.debit(asset, amount) {
            Ok(()) => {}
            Err(e) => {
                // The checks above meet the callee's success conditions,
                // so its contract rules this arm out.
                proof {
                    assert(false);
                }
                return Err(e);
            }
        }
        let id: u64 = self.next_id;
        let rec = PendingSettlement {
            id,
            account,
            asset,
            amount,
            direction: Direction::Withdraw,
            state: SettlementState::AwaitingExternalConfirmation,
            created_at: now,
        };
        let ghost s0 = self.pending@;
        self.pending.push(rec);
        self.next_id = id + 1;
        proof {
            self.lemma_after_push(s0, rec, account, asset);
        }
        Ok((id, TransferInstruction { direction: Direction::Withdraw, adapter, asset, amount }))
    }

    /// Whether confirming a deposit of `amount` could be committed: both
    /// counters must stay inside the numeric domain.
    pub open spec fn deposit_fits(
        ledger: ShareLedger,
        reserves: ReserveTracker,
        asset: TokenType,
        amount: u128,
    ) -> bool {
        &&& ledger.spec_supply(asset) + amount <= u128::MAX
        &&& reserves.spec_balance(asset) + amount <= u128::MAX
    }

    /// Why `resolve_deposit` would reject; nothing if it would succeed.  A
    /// missing id means the settlement was already resolved or never
    /// issued; a withdrawal id is equally not this callback's to resolve.
    pub open spec fn resolve_deposit_err(
        self,
        ledger: ShareLedger,
        reserves: ReserveTracker,
        id: u64,
        success: bool,
    ) -> Option<VaultError> {
        match spec_find_id(self.pending@, id) {
            None => Some(VaultError::DoubleResolution),
            Some(p) => if p.direction != Direction::Deposit {
                Some(VaultError::DoubleResolution)
            } else if success && !Self::deposit_fits(ledger, reserves, p.asset, p.amount) {
                Some(VaultError::Overflow)
            } else {
                None
            },
        }
    }

    /// Resolves a deposit settlement from the adapter's reported outcome.
    /// On success the shares are minted, the reserve credited and a
    /// `Deposited` event appended; on failure nothing is mutated and a
    /// `Failed` event is appended.  Either way the record is dropped, so a
    /// repeated callback is rejected with `DoubleResolution` and has no
    /// effect; an `Overflow` abort commits nothing and keeps the record.
    pub fn resolve_deposit(
        &mut self,
        ledger: &mut ShareLedger,
        reserves: &mut ReserveTracker,
        log: &mut EventLog,
        id: u64,
        success: bool,
        now: u64,
    ) -> (r: Result<(), VaultError>)
        requires
            old(self).wf(),
            old(ledger).wf(),
            old(log).wf(),
        ensures
            final(self).wf(),
            final(ledger).wf(),
            final(log).wf(),
            final(self).next_id == old(self).next_id,
            final(log).capacity == old(log).capacity,
            match r {
                Ok(()) => spec_find_id(old(self).pending@, id) matches Some(p) && {
                    &&& old(self).resolve_deposit_err(*old(ledger), *old(reserves), id, success)
                        is None
                    &&& p.direction == Direction::Deposit
                    &&& exists|i: int|
                        0 <= i < old(self).pending@.len() && old(self).pending@[i] == p && final(self).pending@
                            == old(self).pending@.remove(i)
                    &&& forall|acc2: AccountId, a2: TokenType|
                        #[trigger] pair_open(final(self).pending@, acc2, a2) == (pair_open(
                            old(self).pending@,
                            acc2,
                            a2,
                        ) && !(acc2 == p.account && a2 == p.asset))
                    &&& if success {
                        &&& forall|acc2: AccountId, a2: TokenType|
                            #[trigger] final(ledger).spec_balance(acc2, a2) == if acc2 == p.account
                                && a2 == p.asset {
                                (old(ledger).spec_balance(p.account, p.asset) + p.amount) as u128
                            } else {
                                old(ledger).spec_balance(acc2, a2)
                            }
                        &&& forall|a2: TokenType| #[trigger] final(ledger).spec_supply(a2) == if a2
                            == p.asset {
                            (old(ledger).spec_supply(p.asset) + p.amount) as u128
                        } else {
                            old(ledger).spec_supply(a2)
                        }
                        &&& forall|a2: TokenType| #[trigger] final(reserves).spec_balance(a2)
                            == if a2 == p.asset {
                            (old(reserves).spec_balance(p.asset) + p.amount) as u128
                        } else {
                            old(reserves).spec_balance(a2)
                        }
                        &&& crate::events::log_appended(
                            *final(log),
                            *old(log),
                            SettlementEvent {
                                kind: EventKind::Deposited,
                                account: p.account,
                                asset: p.asset,
                                amount: p.amount,
                                share_delta: p.amount,
                                timestamp: now,
                            },
                        )
                    } else {
                        &&& *final(ledger) == *old(ledger)
                        &&& *final(reserves) == *old(reserves)
                        &&& crate::events::log_appended(
                            *final(log),
                            *old(log),
                            SettlementEvent {
                                kind: EventKind::Failed,
                                account: p.account,
                                asset: p.asset,
                                amount: p.amount,
                                share_delta: 0,
                                timestamp: now,
                            },
                        )
                    }
                },
                Err(e) => {
                    &&& Some(e) == old(self).resolve_deposit_err(
                        *old(ledger),
                        *old(reserves),
                        id,
                        success,
                    )
                    &&& *final(self) == *old(self)
                    &&& *final(ledger) == *old(ledger)
                    &&& *final(reserves) == *old(reserves)
                    &&& *final(log) == *old(log)
                },
            },
    {
        let i: usize = match self.find_index_by_id(id) {
            Some(i) => i,
            None => {
                proof {
                    lemma_spec_find_id_absent(self.pending@, id);
                }
                return Err(VaultError::DoubleResolution);
            }
        };
        let p = self.pending[i];
        proof {
            lemma_spec_find_id_at(self.pending@, i as int, id);
        }
        match p.direction {
            Direction::Withdraw => {
                return Err(VaultError::DoubleResolution);
            }
            Direction::Deposit => {}
        }
        if success {
            let supply: u128 = ledger.total_supply(p.asset);
            if p.amount > u128::MAX - supply {
                return Err(VaultError::Overflow);
            }
            let reserve_now: u128 = reserves.balance(p.asset);
            if p.amount > u128::MAX - reserve_now {
                return Err(VaultError::Overflow);
            }
            match ledger.mint(p.account, p.asset, p.amount) {
                Ok(()) => {}
                Err(e) => {
                    // The checks above meet the callee's success
                    // conditions, so its contract rules this arm out.
                    proof {
                        assert(false);
                    }
                    return Err(e);
                }
            }
            match reserves.credit(p.asset, p.amount) {
                Ok(()) => {}
                Err(e) => {
                    // The checks above meet the callee's success
                    // conditions, so its contract rules this arm out.
                    proof {
                        assert(false);
                    }
                    return Err(e);
                }
            }
            log.append(
                SettlementEvent {
                    kind: EventKind::Deposited,
                    account: p.account,
                    asset: p.asset,
                    amount: p.amount,
                    share_delta: p.amount,
                    timestamp: now,
                },
            );
        } else {
            log.append(
                SettlementEvent {
                    kind: EventKind::Failed,
                    account: p.account,
                    asset: p.asset,
                    amount: p.amount,
                    share_delta: 0,
                    timestamp: now,
                },
            );
        }
        let ghost s0 = self.pending@;
        self.pending.remove(i);
        proof {
            self.lemma_after_remove(s0, i as int);
        }
        Ok(())
    }

    /// Dropping a resolved record keeps the coordinator well-formed and
    /// closes exactly the record's pair.
    proof fn lemma_after_remove(self, s0: Seq<PendingSettlement>, i: int)
        requires
            unique_ids(s0),
            unique_pairs(s0),
            forall|k: int| 0 <= k < s0.len() ==> (#[trigger] s0[k]).id < self.next_id,
            forall|k: int|
                0 <= k < s0.len() ==> (#[trigger] s0[k]).state
                    == SettlementState::AwaitingExternalConfirmation,
            self.next_id >= 1,
            0 <= i < s0.len(),
            self.pending@ == s0.remove(i),
        ensures
            self.wf(),
            forall|acc2: AccountId, a2: TokenType|
                #[trigger] pair_open(self.pending@, acc2, a2) == (pair_open(s0, acc2, a2) && !(acc2
                    == s0[i].account && a2 == s0[i].asset)),
    {
        s0.remove_ensures(i);
        let t = self.pending@;
        assert forall|p: int, q: int|
            #![trigger t[p], t[q]]
            0 <= p < q < t.len() implies t[p].id != t[q].id && !(t[p].account == t[q].account
            && t[p].asset == t[q].asset) by {
            let p0 = if p < i {
                p
            } else {
                p + 1
            };
            let q0 = if q < i {
                q
            } else {
                q + 1
            };
            assert(t[p] == s0[p0] && t[q] == s0[q0]);
        }
        assert forall|k: int| 0 <= k < t.len() implies (#[trigger] t[k]).id < self.next_id && t[k].state
            == SettlementState::AwaitingExternalConfirmation by {
            let k0 = if k < i {
                k
            } else {
                k + 1
            };
            assert(t[k] == s0[k0]);
        }
        lemma_remove_pair_open(s0, i);
    }

    /// Why `resolve_withdraw` would reject; nothing if it would succeed.
    /// Compensating a failed withdrawal re-mints and re-credits, so the
    /// failure path needs the same numeric room as a deposit.
    pub open spec fn resolve_withdraw_err(
        self,
        ledger: ShareLedger,
        reserves: ReserveTracker,
        id: u64,
        success: bool,
    ) -> Option<VaultError> {
        match spec_find_id(self.pending@, id) {
            None => Some(VaultError::DoubleResolution),
            Some(p) => if p.direction != Direction::Withdraw {
                Some(VaultError::DoubleResolution)
            } else if !success && !Self::deposit_fits(ledger, reserves, p.asset, p.amount) {
                Some(VaultError::Overflow)
            } else {
                None
            },
        }
    }

    /// Resolves a withdrawal settlement from the adapter's reported
    /// outcome.  On success the speculative burn and debit stand and a
    /// `Withdrawn` event is appended.  On failure the compensation is the
    /// exact inverse of the speculative mutation — the shares are re-minted
    /// and the reserve re-credited — and a `Failed` event is appended.
    /// Either way the record is dropped; a repeated callback is rejected
    /// with `DoubleResolution` and has no effect.
    pub fn resolve_withdraw(
        &mut self,
        ledger: &mut ShareLedger,
        reserves: &mut ReserveTracker,
        log: &mut EventLog,
        id: u64,
        success: bool,
        now: u64,
    ) -> (r: Result<(), VaultError>)
        requires
            old(self).wf(),
            old(ledger).wf(),
            old(log).wf(),
        ensures
            final(self).wf(),
            final(ledger).wf(),
            final(log).wf(),
            final(self).next_id == old(self).next_id,
            final(log).capacity == old(log).capacity,
            match r {
                Ok(()) => spec_find_id(old(self).pending@, id) matches Some(p) && {
                    &&& old(self).resolve_withdraw_err(*old(ledger), *old(reserves), id, success)
                        is None
                    &&& p.direction == Direction::Withdraw
                    &&& exists|i: int|
                        0 <= i < old(self).pending@.len() && old(self).pending@[i] == p && final(self).pending@
                            == old(self).pending@.remove(i)
                    &&& forall|acc2: AccountId, a2: TokenType|
                        #[trigger] pair_open(final(self).pending@, acc2, a2) == (pair_open(
                            old(self).pending@,
                            acc2,
                            a2,
                        ) && !(acc2 == p.account && a2 == p.asset))
                    &&& if success {
                        &&& *final(ledger) == *old(ledger)
                        &&& *final(reserves) == *old(reserves)
                        &&& crate::events::log_appended(
                            *final(log),
                            *old(log),
                            SettlementEvent {
                                kind: EventKind::Withdrawn,
                                account: p.account,
                                asset: p.asset,
                                amount: p.amount,
                                share_delta: p.amount,
                                timestamp: now,
                            },
                        )
                    } else {
                        &&& forall|acc2: AccountId, a2: TokenType|
                            #[trigger] final(ledger).spec_balance(acc2, a2) == if acc2 == p.account
                                && a2 == p.asset {
                                (old(ledger).spec_balance(p.account, p.asset) + p.amount) as u128
                            } else {
                                old(ledger).spec_balance(acc2, a2)
                            }
                        &&& forall|a2: TokenType| #[trigger] final(ledger).spec_supply(a2) == if a2
                            == p.asset {
                            (old(ledger).spec_supply(p.asset) + p.amount) as u128
                        } else {
                            old(ledger).spec_supply(a2)
                        }
                        &&& forall|a2: TokenType| #[trigger] final(reserves).spec_balance(a2)
                            == if a2 == p.asset {
                            (old(reserves).spec_balance(p.asset) + p.amount) as u128
                        } else {
                            old(reserves).spec_balance(a2)
                        }
                        &&& crate::events::log_appended(
                            *final(log),
                            *old(log),
                            SettlementEvent {
                                kind: EventKind::Failed,
                                account: p.account,
                                asset: p.asset,
                                amount: p.amount,
                                share_delta: 0,
                                timestamp: now,
                            },
                        )
                    }
                },
                Err(e) => {
                    &&& Some(e) == old(self).resolve_withdraw_err(
                        *old(ledger),
                        *old(reserves),
                        id,
                        success,
                    )
                    &&& *final(self) == *old(self)
                    &&& *final(ledger) == *old(ledger)
                    &&& *final(reserves) == *old(reserves)
                    &&& *final(log) == *old(log)
                },
            },
    {
        let i: usize = match self.find_index_by_id(id) {
            Some(i) => i,
            None => {
                proof {
                    lemma_spec_find_id_absent(self.pending@, id);
                }
                return Err(VaultError::DoubleResolution);
            }
        };
        let p = self.pending[i];
        proof {
            lemma_spec_find_id_at(self.pending@, i as int, id);
        }
        match p.direction {
            Direction::Deposit => {
                return Err(VaultError::DoubleResolution);
            }
            Direction::Withdraw => {}
        }
        if success {
            log.append(
                SettlementEvent {
                    kind: EventKind::Withdrawn,
                    account: p.account,
                    asset: p.asset,
                    amount: p.amount,
                    share_delta: p.amount,
                    timestamp: now,
                },
            );
        } else {
            let supply: u128 = ledger.total_supply(p.asset);
            if p.amount > u128::MAX - supply {
                return Err(VaultError::Overflow);
            }
            let reserve_now: u128 = reserves.balance(p.asset);
            if p.amount > u128::MAX - reserve_now {
                return Err(VaultError::Overflow);
            }
            match ledger.mint(p.account, p.asset, p.amount) {
                Ok(()) => {}
                Err(e) => {
                    // The checks above meet the callee's success
                    // conditions, so its contract rules this arm out.
                    proof {
                        assert(false);
                    }
                    return Err(e);
                }
            }
            match reserves.credit(p.asset, p.amount) {
                Ok(()) => {}
                Err(e) => {
                    // The checks above meet the callee's success
                    // conditions, so its contract rules this arm out.
                    proof {
                        assert(false);
                    }
                    return Err(e);
                }
            }
            log.append(
                SettlementEvent {
                    kind: EventKind::Failed,
                    account: p.account,
                    asset: p.asset,
                    amount: p.amount,
                    share_delta: 0,
                    timestamp: now,
                },
            );
        }
        let ghost s0 = self.pending@;
        self.pending.remove(i);
        proof {
            self.lemma_after_remove(s0, i as int);
        }
        Ok(())
    }
}

} // verus!
