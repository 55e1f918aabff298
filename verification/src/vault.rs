//! The vault service: policy, composition, and the public operations.
//!
//! The service owns the configuration, the share ledger, the reserve
//! tracker, the event log and the settlement coordinator, and is the only
//! caller of the coordinator.  Every entry point validates strictly before
//! any mutation, in a fixed order; the `*_err` spec functions state that
//! order, and each operation's contract says it returns exactly the first
//! failing check, or performs exactly the transition its predicate
//! describes.

use vstd::prelude::*;
use crate::asset::{AccountId, TokenType};
use crate::errors::VaultError;
use crate::events::{EventKind, EventLog, SettlementEvent, log_appended};
use crate::ledger::ShareLedger;
use crate::reserve::ReserveTracker;
use crate::settlement::{
    Direction, PendingSettlement, SettlementCoordinator, SettlementState, TransferInstruction,
    pair_open, spec_find_id,
};

verus! {

/// Per-asset policy: bounds on a single request and a cap on the reserve.
#[derive(Clone, Copy, PartialEq, Eq, Structural, Debug)]
pub struct AssetPolicy {
    /// The smallest amount a deposit or withdrawal may name.
    pub min_amount: u128,
    /// The largest amount a deposit or withdrawal may name.
    pub max_amount: u128,
    /// The reserve after a confirmed deposit may not exceed this.
    pub capacity: u128,
}

/// The vault's configuration: owner, paused flag, fee, and the custody
/// adapter binding and policy of each asset.  Mutated only by
/// owner-authorized admin operations.
#[derive(Clone, Copy, PartialEq, Eq, Structural, Debug)]
pub struct VaultConfig {
    pub owner: AccountId,
    pub paused: bool,
    /// Fee in basis points; the settlement core itself settles 1:1, a fee
    /// or yield multiplier is applied by the caller before validation.
    pub fee_bps: u16,
    pub wnear_adapter: AccountId,
    pub usdc_adapter: AccountId,
    pub usdt_adapter: AccountId,
    pub wnear_policy: AssetPolicy,
    pub usdc_policy: AssetPolicy,
    pub usdt_policy: AssetPolicy,
}

impl VaultConfig {
    /// The custody adapter bound to `asset`.
    pub open spec fn spec_adapter(self, asset: TokenType) -> AccountId {
        match asset {
            TokenType::WNEAR => self.wnear_adapter,
            TokenType::USDC => self.usdc_adapter,
            TokenType::USDT => self.usdt_adapter,
        }
    }

    /// The policy bound to `asset`.
    pub open spec fn spec_policy(self, asset: TokenType) -> AssetPolicy {
        match asset {
            TokenType::WNEAR => self.wnear_policy,
            TokenType::USDC => self.usdc_policy,
            TokenType::USDT => self.usdt_policy,
        }
    }

    /// The custody adapter bound to `asset`.
    pub fn adapter(&self, asset: TokenType) -> (r: AccountId)
        ensures
            r == self.spec_adapter(asset),
    {
        match asset {
            TokenType::WNEAR => self.wnear_adapter,
            TokenType::USDC => self.usdc_adapter,
            TokenType::USDT => self.usdt_adapter,
        }
    }

    /// The policy bound to `asset`.
    pub fn policy(&self, asset: TokenType) -> (r: AssetPolicy)
        ensures
            r == self.spec_policy(asset),
    {
        match asset {
            TokenType::WNEAR => self.wnear_policy,
            TokenType::USDC => self.usdc_policy,
            TokenType::USDT => self.usdt_policy,
        }
    }

    /// The asset an adapter account is bound to, if any; assets are tried
    /// in declaration order, so an account bound twice answers for the
    /// first binding.
    pub open spec fn spec_asset_of_adapter(self, adapter: AccountId) -> Option<TokenType> {
        if adapter == self.wnear_adapter {
            Some(TokenType::WNEAR)
        } else if adapter == self.usdc_adapter {
            Some(TokenType::USDC)
        } else if adapter == self.usdt_adapter {
            Some(TokenType::USDT)
        } else {
            None
        }
    }

    /// The asset an adapter account is bound to, if any.
    pub fn asset_of_adapter(&self, adapter: AccountId) -> (r: Option<TokenType>)
        ensures
            r == self.spec_asset_of_adapter(adapter),
    {
        if adapter == self.wnear_adapter {
            Some(TokenType::WNEAR)
        } else if adapter == self.usdc_adapter {
            Some(TokenType::USDC)
        } else if adapter == self.usdt_adapter {
            Some(TokenType::USDT)
        } else {
            None
        }
    }
}

/// The predicate `get_events_of_kind` filters by.
pub open spec fn kind_filter(kind: EventKind) -> spec_fn(SettlementEvent) -> bool {
    |e: SettlementEvent| e.kind == kind
}

/// The predicate `get_events_for_account` filters by.
pub open spec fn account_filter(account: AccountId) -> spec_fn(SettlementEvent) -> bool {
    |e: SettlementEvent| e.account == account
}

/// The public-facing composition of the vault core.
pub struct Vault {
    pub config: VaultConfig,
    pub ledger: ShareLedger,
    pub reserves: ReserveTracker,
    pub log: EventLog,
    pub coordinator: SettlementCoordinator,
}

impl Vault {
    /// The share balance of (account, asset).
    pub open spec fn shares(self, account: AccountId, asset: TokenType) -> u128 {
        self.ledger.spec_balance(account, asset)
    }

    /// The total share supply of `asset`.
    pub open spec fn supply(self, asset: TokenType) -> u128 {
        self.ledger.spec_supply(asset)
    }

    /// The reserve of `asset`.
    pub open spec fn reserve(self, asset: TokenType) -> u128 {
        self.reserves.spec_balance(asset)
    }

    /// The recorded settlement events, oldest first.
    pub open spec fn events(self) -> Seq<SettlementEvent> {
        self.log.log()
    }

    /// The open settlements.
    pub open spec fn open_settlements(self) -> Seq<PendingSettlement> {
        self.coordinator.pending@
    }

    /// Whether a settlement is open for (account, asset).
    pub open spec fn settlement_open(self, account: AccountId, asset: TokenType) -> bool {
        pair_open(self.coordinator.pending@, account, asset)
    }

    /// The id the next settlement will get.
    pub open spec fn next_settlement_id(self) -> u64 {
        self.coordinator.next_id
    }

    /// The invariant every operation preserves: the ledger conserves
    /// shares, the log respects its bound, and the coordinator holds at
    /// most one settlement per pair with unique ids.
    pub open spec fn inv(self) -> bool {
        &&& self.ledger.wf()
        &&& self.log.wf()
        &&& self.coordinator.wf()
    }

    /// An empty vault under `config`: no shares, no reserves, no events,
    /// nothing pending; the first settlement will get id 1.
    pub fn new(config: VaultConfig) -> (r: Self)
        ensures
            r.inv(),
            r.config == config,
            forall|acc: AccountId, a: TokenType| #[trigger] r.shares(acc, a) == 0,
            forall|a: TokenType| #[trigger] r.supply(a) == 0,
            forall|a: TokenType| #[trigger] r.reserve(a) == 0,
            r.events() == Seq::<SettlementEvent>::empty(),
            r.open_settlements() == Seq::<PendingSettlement>::empty(),
            r.next_settlement_id() == 1,
    {
        Vault {
            config,
            ledger: ShareLedger::new(),
            reserves: ReserveTracker::new(),
            log: EventLog::with_default_capacity(),
            coordinator: SettlementCoordinator::new(),
        }
    }

    /// Why `deposit` would reject, checked in this order; nothing if it
    /// would succeed.
    pub open spec fn deposit_err(
        self,
        account: AccountId,
        asset: TokenType,
        amount: u128,
    ) -> Option<VaultError> {
        let pol = self.config.spec_policy(asset);
        if self.config.paused {
            Some(VaultError::VaultPaused)
        } else if self.settlement_open(account, asset) {
            Some(VaultError::SettlementInProgress)
        } else if amount == 0 {
            Some(VaultError::ZeroAmount)
        } else if amount < pol.min_amount {
            Some(VaultError::BelowMinimum)
        } else if amount > pol.max_amount {
            Some(VaultError::AboveMaximum)
        } else if self.reserve(asset) + amount > pol.capacity {
            Some(VaultError::AboveCapacity)
        } else if self.next_settlement_id() == u64::MAX {
            Some(VaultError::Overflow)
        } else {
            None
        }
    }

    /// Why `withdraw` would reject, checked in this order; nothing if it
    /// would succeed.
    pub open spec fn withdraw_err(
        self,
        account: AccountId,
        asset: TokenType,
        amount: u128,
    ) -> Option<VaultError> {
        let pol = self.config.spec_policy(asset);
        if self.config.paused {
            Some(VaultError::VaultPaused)
        } else if self.settlement_open(account, asset) {
            Some(VaultError::SettlementInProgress)
        } else if amount == 0 {
            Some(VaultError::ZeroAmount)
        } else if amount < pol.min_amount {
            Some(VaultError::BelowMinimum)
        } else if amount > pol.max_amount {
            Some(VaultError::AboveMaximum)
        } else if self.shares(account, asset) < amount {
            Some(VaultError::InsufficientShares)
        } else if self.reserve(asset) < amount {
            Some(VaultError::InsufficientReserve)
        } else if self.next_settlement_id() == u64::MAX {
            Some(VaultError::Overflow)
        } else {
            None
        }
    }

    /// Why resolving a deposit would reject; nothing if it would succeed.
    pub open spec fn resolve_deposit_err(self, id: u64, success: bool) -> Option<VaultError> {
        self.coordinator.resolve_deposit_err(self.ledger, self.reserves, id, success)
    }

    /// Why resolving a withdrawal would reject; nothing if it would
    /// succeed.
    pub open spec fn resolve_withdraw_err(self, id: u64, success: bool) -> Option<VaultError> {
        self.coordinator.resolve_withdraw_err(self.ledger, self.reserves, id, success)
    }

    /// Opens a deposit: validates policy, opens the settlement and hands
    /// back the inbound transfer instruction.  No shares are minted and no
    /// reserve is credited until the confirmation callback arrives.
    pub fn deposit(&mut self, account: AccountId, asset: TokenType, amount: u128, now: u64) -> (r:
        Result<(u64, TransferInstruction), VaultError>)
        requires
            old(self).inv(),
        ensures
            final(self).inv(),
            match r {
                Ok((id, instr)) => deposit_begun(
                    *old(self),
                    *final(self),
                    account,
                    asset,
                    amount,
                    id,
                    instr,
                    now,
                ),
                Err(e) => {
                    &&& Some(e) == old(self).deposit_err(account, asset, amount)
                    &&& *final(self) == *old(self)
                },
            },
    {
        if self.config.paused {
            return Err(VaultError::VaultPaused);
        }
        if self.coordinator.is_pair_open(account, asset) {
            return Err(VaultError::SettlementInProgress);
        }
        if amount == 0 {
            return Err(VaultError::ZeroAmount);
        }
        let pol = self.config.policy(asset);
        if amount < pol.min_amount {
            return Err(VaultError::BelowMinimum);
        }
        if amount > pol.max_amount {
            return Err(VaultError::AboveMaximum);
        }
        let reserve_now = self.reserves.balance(asset);
        if amount > pol.capacity || reserve_now > pol.capacity - amount {
            return Err(VaultError::AboveCapacity);
        }
        if self.coordinator.next_id == u64::MAX {
            return Err(VaultError::Overflow);
        }
        let adapter = self.config.adapter(asset);
        match self.coordinator.begin_deposit(account, asset, amount, adapter, now) {
            Ok((id, instr)) => Ok((id, instr)),
            Err(e) => {
                // The checks above meet the coordinator's success
                // conditions, so its contract rules this arm out.
                proof {
                    assert(false);
                }
                Err(e)
            }
        }
    }

    /// Opens a withdrawal: validates policy, burns the shares and debits
    /// the reserve speculatively, opens the settlement and hands back the
    /// outbound transfer instruction.
    pub fn withdraw(&mut self, account: AccountId, asset: TokenType, amount: u128, now: u64) -> (r:
        Result<(u64, TransferInstruction), VaultError>)
        requires
            old(self).inv(),
        ensures
            final(self).inv(),
            match r {
                Ok((id, instr)) => withdraw_begun(
                    *old(self),
                    *final(self),
                    account,
                    asset,
                    amount,
                    id,
                    instr,
                    now,
                ),
                Err(e) => {
                    &&& Some(e) == old(self).withdraw_err(account, asset, amount)
                    &&& *final(self) == *old(self)
                },
            },
    {
        if self.config.paused {
            return Err(VaultError::VaultPaused);
        }
        if self.coordinator.is_pair_open(account, asset) {
            return Err(VaultError::SettlementInProgress);
        }
        if amount == 0 {
            return Err(VaultError::ZeroAmount);
        }
        let pol = self.config.policy(asset);
        if amount < pol.min_amount {
            return Err(VaultError::BelowMinimum);
        }
        if amount > pol.max_amount {
            return Err(VaultError::AboveMaximum);
        }
        let adapter = self.config.adapter(asset);
        let r = self.coordinator.begin_withdraw(
            &mut self.ledger,
            &mut self.reserves,
            account,
            asset,
            amount,
            adapter,
            now,
        );
        r
    }

    /// The custody adapter's confirmation callback for a deposit.  On a
    /// successful outcome mints the shares, credits the reserve and logs
    /// `Deposited`; on a failed one mutates nothing and logs `Failed`.  A
    /// repeated or mismatched callback is rejected with `DoubleResolution`
    /// and has no effect.
    pub fn resolve_deposit_callback(&mut self, id: u64, success: bool, now: u64) -> (r: Result<
        (),
        VaultError,
    >)
        requires
            old(self).inv(),
        ensures
            final(self).inv(),
            match r {
                Ok(()) => if success {
                    deposit_confirmed(*old(self), *final(self), id, now)
                } else {
                    deposit_failed(*old(self), *final(self), id, now)
                },
                Err(e) => {
                    &&& Some(e) == old(self).resolve_deposit_err(id, success)
                    &&& *final(self) == *old(self)
                },
            },
    {
        let r = self.coordinator.resolve_deposit(
            &mut self.ledger,
            &mut self.reserves,
            &mut self.log,
            id,
            success,
            now,
        );
        r
    }

    /// The custody adapter's confirmation callback for a withdrawal.  On a
    /// successful outcome the speculative burn stands and `Withdrawn` is
    /// logged; on a failed one the burn and debit are compensated exactly
    /// and `Failed` is logged.  A repeated or mismatched callback is
    /// rejected with `DoubleResolution` and has no effect.
    pub fn resolve_withdraw_callback(&mut self, id: u64, success: bool, now: u64) -> (r: Result<
        (),
        VaultError,
    >)
        requires
            old(self).inv(),
        ensures
            final(self).inv(),
            match r {
                Ok(()) => if success {
                    withdraw_confirmed(*old(self), *final(self), id, now)
                } else {
                    withdraw_compensated(*old(self), *final(self), id, now)
                },
                Err(e) => {
                    &&& Some(e) == old(self).resolve_withdraw_err(id, success)
                    &&& *final(self) == *old(self)
                },
            },
    {
        let r = self.coordinator.resolve_withdraw(
            &mut self.ledger,
            &mut self.reserves,
            &mut self.log,
            id,
            success,
            now,
        );
        r
    }

    /// Why `force_resolve` would reject; nothing if it would succeed.
    pub open spec fn force_resolve_err(self, caller: AccountId, id: u64) -> Option<VaultError> {
        if caller != self.config.owner {
            Some(VaultError::Unauthorized)
        } else {
            match spec_find_id(self.coordinator.pending@, id) {
                None => Some(VaultError::DoubleResolution),
                Some(p) => if p.direction == Direction::Withdraw
                    && !SettlementCoordinator::deposit_fits(
                    self.ledger,
                    self.reserves,
                    p.asset,
                    p.amount,
                ) {
                    Some(VaultError::Overflow)
                } else {
                    None
                },
            }
        }
    }

    /// The operator's recovery override: resolves the settlement with id
    /// `id` as failed, exactly as an adapter failure report would, to
    /// unblock an (account, asset) pair whose adapter never called back.
    /// Owner-gated; this is the only administrative entry into the
    /// settlement state machine.
    pub fn force_resolve(&mut self, caller: AccountId, id: u64, now: u64) -> (r: Result<
        (),
        VaultError,
    >)
        requires
            old(self).inv(),
        ensures
            final(self).inv(),
            match r {
                Ok(()) => spec_find_id(old(self).open_settlements(), id) matches Some(p)
                    && if p.direction == Direction::Deposit {
                    deposit_failed(*old(self), *final(self), id, now)
                } else {
                    withdraw_compensated(*old(self), *final(self), id, now)
                },
                Err(e) => {
                    &&& Some(e) == old(self).force_resolve_err(caller, id)
                    &&& *final(self) == *old(self)
                },
            },
    {
        if caller != self.config.owner {
            return Err(VaultError::Unauthorized);
        }
        let p = match self.coordinator.get_by_id(id) {
            Some(p) => p,
            None => {
                return Err(VaultError::DoubleResolution);
            }
        };
        match p.direction {
            Direction::Deposit => {
                let r = self.coordinator.resolve_deposit(
                    &mut self.ledger,
                    &mut self.reserves,
                    &mut self.log,
                    id,
                    false,
                    now,
                );
                r
            }
            Direction::Withdraw => {
                let r = self.coordinator.resolve_withdraw(
                    &mut self.ledger,
                    &mut self.reserves,
                    &mut self.log,
                    id,
                    false,
                    now,
                );
                r
            }
        }
    }

    /// Pauses or unpauses the vault.  Owner-gated; takes effect at once
    /// and touches nothing else.
    pub fn set_paused(&mut self, caller: AccountId, paused: bool) -> (r: Result<(), VaultError>)
        requires
            old(self).inv(),
        ensures
            final(self).inv(),
            match r {
                Ok(()) => {
                    &&& caller == old(self).config.owner
                    &&& final(self).config == (VaultConfig { paused, ..old(self).config })
                    &&& final(self).ledger == old(self).ledger
                    &&& final(self).reserves == old(self).reserves
                    &&& final(self).log == old(self).log
                    &&& final(self).coordinator == old(self).coordinator
                },
                Err(e) => {
                    &&& e == VaultError::Unauthorized
                    &&& caller != old(self).config.owner
                    &&& *final(self) == *old(self)
                },
            },
    {
        if caller != self.config.owner {
            return Err(VaultError::Unauthorized);
        }
        self.config.paused = paused;
        Ok(())
    }

    /// Replaces the whole configuration.  Owner-gated; takes effect at
    /// once and touches nothing else.
    pub fn update_config(&mut self, caller: AccountId, new_config: VaultConfig) -> (r: Result<
        (),
        VaultError,
    >)
        requires
            old(self).inv(),
        ensures
            final(self).inv(),
            match r {
                Ok(()) => {
                    &&& caller == old(self).config.owner
                    &&& final(self).config == new_config
                    &&& final(self).ledger == old(self).ledger
                    &&& final(self).reserves == old(self).reserves
                    &&& final(self).log == old(self).log
                    &&& final(self).coordinator == old(self).coordinator
                },
                Err(e) => {
                    &&& e == VaultError::Unauthorized
                    &&& caller != old(self).config.owner
                    &&& *final(self) == *old(self)
                },
            },
    {
        if caller != self.config.owner {
            return Err(VaultError::Unauthorized);
        }
        self.config = new_config;
        Ok(())
    }

    /// The current configuration.
    pub fn get_config(&self) -> (r: VaultConfig)
        ensures
            r == self.config,
    {
        self.config
    }

    /// The reserve of `asset`.
    pub fn get_reserve(&self, asset: TokenType) -> (r: u128)
        ensures
            r == self.reserve(asset),
    {
        self.reserves.balance(asset)
    }

    /// The share balance of (account, asset).
    pub fn get_shares(&self, account: AccountId, asset: TokenType) -> (r: u128)
        ensures
            r == self.shares(account, asset),
    {
        self.ledger.balance_of(account, asset)
    }

    /// The total share supply of `asset`.
    pub fn get_total_supply(&self, asset: TokenType) -> (r: u128)
        ensures
            r == self.supply(asset),
    {
        self.ledger.total_supply(asset)
    }

    /// The account's shares summed over every asset, or nothing if the sum
    /// leaves the numeric domain.
    pub fn get_total_shares(&self, account: AccountId) -> (r: Option<u128>)
        ensures
            ({
                let total = self.shares(account, TokenType::WNEAR) + self.shares(
                    account,
                    TokenType::USDC,
                ) + self.shares(account, TokenType::USDT);
                r == if total <= u128::MAX {
                    Some(total as u128)
                } else {
                    None::<u128>
                }
            }),
    {
        let a = self.ledger.balance_of(account, TokenType::WNEAR);
        let b = self.ledger.balance_of(account, TokenType::USDC);
        let c = self.ledger.balance_of(account, TokenType::USDT);
        if b > u128::MAX - a {
            return None;
        }
        let ab = a + b;
        if c > u128::MAX - ab {
            return None;
        }
        Some(ab + c)
    }

    /// Up to `limit` of the most recent events, oldest first.
    pub fn get_events(&self, limit: usize) -> (r: Vec<SettlementEvent>)
        ensures
            r@ == self.log.query_range(limit, 0),
    {
        self.log.query(limit, 0)
    }

    /// Up to `limit` of the most recent events of `kind`, oldest first.
    pub fn get_events_of_kind(&self, kind: EventKind, limit: usize) -> (r: Vec<SettlementEvent>)
        ensures
            ({
                let f = self.events().filter(kind_filter(kind));
                r@ == f.subrange(
                    if limit <= f.len() {
                        f.len() - limit
                    } else {
                        0
                    },
                    f.len() as int,
                )
            }),
    {
        let ghost p = kind_filter(kind);
        let n: usize = self.log.entries.len();
        let mut matched: Vec<SettlementEvent> = Vec::new();
        proof {
            reveal(Seq::filter);
            assert(self.log.entries@.take(0) =~= Seq::<SettlementEvent>::empty());
            assert(self.log.entries@.take(0).filter(p) =~= Seq::<SettlementEvent>::empty());
        }
        let mut k: usize = 0;
        while k < n
            invariant
                n == self.log.entries@.len(),
                p == kind_filter(kind),
                k <= n,
                matched@ == self.log.entries@.take(k as int).filter(p),
            decreases n - k,
        {
            let e = self.log.entries[k];
            proof {
                reveal(Seq::filter);
                let t = self.log.entries@.take(k as int);
                let t1 = self.log.entries@.take(k + 1);
                assert(t1 =~= t.push(self.log.entries@[k as int]));
                assert(t1.drop_last() =~= t);
                assert(t1.last() == self.log.entries@[k as int]);
                assert(t1.filter(p) == if p(e) {
                    t.filter(p).push(e)
                } else {
                    t.filter(p)
                });
            }
            if e.kind == kind {
                matched.push(e);
            }
            k = k + 1;
        }
        proof {
            assert(self.log.entries@.take(n as int) =~= self.log.entries@);
        }
        let m: usize = matched.len();
        let lo: usize = if limit <= m {
            m - limit
        } else {
            0
        };
        let mut r: Vec<SettlementEvent> = Vec::new();
        let mut k2: usize = lo;
        while k2 < m
            invariant
                lo <= k2 <= m == matched@.len(),
                r@ == matched@.subrange(lo as int, k2 as int),
            decreases m - k2,
        {
            r.push(matched[k2]);
            proof {
                assert(r@ =~= matched@.subrange(lo as int, k2 + 1));
            }
            k2 = k2 + 1;
        }
        proof {
            let f = self.events().filter(p);
            assert(r@ =~= f.subrange(
                if limit <= f.len() {
                    f.len() - limit
                } else {
                    0
                },
                f.len() as int,
            ));
        }
        r
    }

    /// Up to `limit` of the most recent events touching `account`, oldest
    /// first.
    pub fn get_events_for_account(&self, account: AccountId, limit: usize) -> (r: Vec<
        SettlementEvent,
    >)
        ensures
            ({
                let f = self.events().filter(account_filter(account));
                r@ == f.subrange(
                    if limit <= f.len() {
                        f.len() - limit
                    } else {
                        0
                    },
                    f.len() as int,
                )
            }),
    {
        let ghost p = account_filter(account);
        let n: usize = self.log.entries.len();
        let mut matched: Vec<SettlementEvent> = Vec::new();
        proof {
            reveal(Seq::filter);
            assert(self.log.entries@.take(0) =~= Seq::<SettlementEvent>::empty());
            assert(self.log.entries@.take(0).filter(p) =~= Seq::<SettlementEvent>::empty());
        }
        let mut k: usize = 0;
        while k < n
            invariant
                n == self.log.entries@.len(),
                p == account_filter(account),
                k <= n,
                matched@ == self.log.entries@.take(k as int).filter(p),
            decreases n - k,
        {
            let e = self.log.entries[k];
            proof {
                reveal(Seq::filter);
                let t = self.log.entries@.take(k as int);
                let t1 = self.log.entries@.take(k + 1);
                assert(t1 =~= t.push(self.log.entries@[k as int]));
                assert(t1.drop_last() =~= t);
                assert(t1.last() == self.log.entries@[k as int]);
                assert(t1.filter(p) == if p(e) {
                    t.filter(p).push(e)
                } else {
                    t.filter(p)
                });
            }
            if e.account == account {
                matched.push(e);
            }
            k = k + 1;
        }
        proof {
            assert(self.log.entries@.take(n as int) =~= self.log.entries@);
        }
        let m: usize = matched.len();
        let lo: usize = if limit <= m {
            m - limit
        } else {
            0
        };
        let mut r: Vec<SettlementEvent> = Vec::new();
        let mut k2: usize = lo;
        while k2 < m
            invariant
                lo <= k2 <= m == matched@.len(),
                r@ == matched@.subrange(lo as int, k2 as int),
            decreases m - k2,
        {
            r.push(matched[k2]);
            proof {
                assert(r@ =~= matched@.subrange(lo as int, k2 + 1));
            }
            k2 = k2 + 1;
        }
        proof {
            let f = self.events().filter(p);
            assert(r@ =~= f.subrange(
                if limit <= f.len() {
                    f.len() - limit
                } else {
                    0
                },
                f.len() as int,
            ));
        }
        r
    }

    /// The open settlement with this id, if any.
    pub fn get_settlement(&self, id: u64) -> (r: Option<PendingSettlement>)
        ensures
            r == spec_find_id(self.open_settlements(), id),
    {
        self.coordinator.get_by_id(id)
    }

    /// Whether a settlement is open for (account, asset).
    pub fn has_open_settlement(&self, account: AccountId, asset: TokenType) -> (r: bool)
        ensures
            r == self.settlement_open(account, asset),
    {
        self.coordinator.is_pair_open(account, asset)
    }

    /// Whether the vault is paused.
    pub fn is_paused(&self) -> (r: bool)
        ensures
            r == self.config.paused,
    {
        self.config.paused
    }
}

/// How a vault state steps when a deposit is opened: policy passed, nothing
/// in the ledger, reserve or log moved, and a fresh awaiting deposit record
/// took the pair's slot.
pub open spec fn deposit_begun(
    pre: Vault,
    post: Vault,
    account: AccountId,
    asset: TokenType,
    amount: u128,
    id: u64,
    instr: TransferInstruction,
    now: u64,
) -> bool {
    &&& pre.inv()
    &&& post.inv()
    &&& pre.deposit_err(account, asset, amount) is None
    &&& id == pre.next_settlement_id()
    &&& post.next_settlement_id() == id + 1
    &&& post.config == pre.config
    &&& post.ledger == pre.ledger
    &&& post.reserves == pre.reserves
    &&& post.log == pre.log
    &&& post.open_settlements() == pre.open_settlements().push(
        PendingSettlement {
            id,
            account,
            asset,
            amount,
            direction: Direction::Deposit,
            state: SettlementState::AwaitingExternalConfirmation,
            created_at: now,
        },
    )
    &&& spec_find_id(post.open_settlements(), id) == Some(post.open_settlements().last())
    &&& forall|acc2: AccountId, a2: TokenType|
        #[trigger] post.settlement_open(acc2, a2) == (pre.settlement_open(acc2, a2) || (acc2
            == account && a2 == asset))
    &&& instr == (TransferInstruction {
        direction: Direction::Deposit,
        adapter: pre.config.spec_adapter(asset),
        asset,
        amount,
    })
}

/// How a vault state steps when a withdrawal is opened: policy passed, the
/// shares burned and the reserve debited speculatively, the log untouched,
/// and a fresh awaiting withdrawal record took the pair's slot.
pub open spec fn withdraw_begun(
    pre: Vault,
    post: Vault,
    account: AccountId,
    asset: TokenType,
    amount: u128,
    id: u64,
    instr: TransferInstruction,
    now: u64,
) -> bool {
    &&& pre.inv()
    &&& post.inv()
    &&& pre.withdraw_err(account, asset, amount) is None
    &&& id == pre.next_settlement_id()
    &&& post.next_settlement_id() == id + 1
    &&& post.config == pre.config
    &&& forall|acc2: AccountId, a2: TokenType|
        #[trigger] post.shares(acc2, a2) == if acc2 == account && a2 == asset {
            (pre.shares(account, asset) - amount) as u128
        } else {
            pre.shares(acc2, a2)
        }
    &&& forall|a2: TokenType| #[trigger] post.supply(a2) == if a2 == asset {
        (pre.supply(asset) - amount) as u128
    } else {
        pre.supply(a2)
    }
    &&& forall|a2: TokenType| #[trigger] post.reserve(a2) == if a2 == asset {
        (pre.reserve(asset) - amount) as u128
    } else {
        pre.reserve(a2)
    }
    &&& post.log == pre.log
    &&& post.open_settlements() == pre.open_settlements().push(
        PendingSettlement {
            id,
            account,
            asset,
            amount,
            direction: Direction::Withdraw,
            state: SettlementState::AwaitingExternalConfirmation,
            created_at: now,
        },
    )
    &&& spec_find_id(post.open_settlements(), id) == Some(post.open_settlements().last())
    &&& forall|acc2: AccountId, a2: TokenType|
        #[trigger] post.settlement_open(acc2, a2) == (pre.settlement_open(acc2, a2) || (acc2
            == account && a2 == asset))
    &&& instr == (TransferInstruction {
        direction: Direction::Withdraw,
        adapter: pre.config.spec_adapter(asset),
        asset,
        amount,
    })
}

/// The bookkeeping every resolution shares: the record left the open set,
/// exactly its pair came free, and configuration and id counter stand.
pub open spec fn settlement_closed(pre: Vault, post: Vault, p: PendingSettlement) -> bool {
    &&& exists|i: int|
        0 <= i < pre.open_settlements().len() && pre.open_settlements()[i] == p
            && post.open_settlements() == pre.open_settlements().remove(i)
    &&& forall|acc2: AccountId, a2: TokenType|
        #[trigger] post.settlement_open(acc2, a2) == (pre.settlement_open(acc2, a2) && !(acc2
            == p.account && a2 == p.asset))
    &&& post.config == pre.config
    &&& post.next_settlement_id() == pre.next_settlement_id()
}

/// How a vault state steps when a deposit confirms: the settlement's
/// amount is minted to its account, the reserve credited, `Deposited`
/// logged, and the record dropped.
pub open spec fn deposit_confirmed(pre: Vault, post: Vault, id: u64, now: u64) -> bool {
    &&& pre.inv()
    &&& post.inv()
    &&& pre.resolve_deposit_err(id, true) is None
    &&& spec_find_id(pre.open_settlements(), id) matches Some(p) && {
        &&& p.direction == Direction::Deposit
        &&& settlement_closed(pre, post, p)
        &&& forall|acc2: AccountId, a2: TokenType|
            #[trigger] post.shares(acc2, a2) == if acc2 == p.account && a2 == p.asset {
                (pre.shares(p.account, p.asset) + p.amount) as u128
            } else {
                pre.shares(acc2, a2)
            }
        &&& forall|a2: TokenType| #[trigger] post.supply(a2) == if a2 == p.asset {
            (pre.supply(p.asset) + p.amount) as u128
        } else {
            pre.supply(a2)
        }
        &&& forall|a2: TokenType| #[trigger] post.reserve(a2) == if a2 == p.asset {
            (pre.reserve(p.asset) + p.amount) as u128
        } else {
            pre.reserve(a2)
        }
        &&& log_appended(
            post.log,
            pre.log,
            SettlementEvent {
                kind: EventKind::Deposited,
                account: p.account,
                asset: p.asset,
                amount: p.amount,
                share_delta: p.amount,
                timestamp: now,
            },
        )
    }
}

/// How a vault state steps when a deposit fails: nothing is minted or
/// credited, `Failed` is logged, and the record dropped.
pub open spec fn deposit_failed(pre: Vault, post: Vault, id: u64, now: u64) -> bool {
    &&& pre.inv()
    &&& post.inv()
    &&& spec_find_id(pre.open_settlements(), id) matches Some(p) && {
        &&& p.direction == Direction::Deposit
        &&& settlement_closed(pre, post, p)
        &&& post.ledger == pre.ledger
        &&& post.reserves == pre.reserves
        &&& log_appended(
            post.log,
            pre.log,
            SettlementEvent {
                kind: EventKind::Failed,
                account: p.account,
                asset: p.asset,
                amount: p.amount,
                share_delta: 0,
                timestamp: now,
            },
        )
    }
}

/// How a vault state steps when a withdrawal confirms: the speculative
/// burn and debit stand, `Withdrawn` is logged, and the record dropped.
pub open spec fn withdraw_confirmed(pre: Vault, post: Vault, id: u64, now: u64) -> bool {
    &&& pre.inv()
    &&& post.inv()
    &&& spec_find_id(pre.open_settlements(), id) matches Some(p) && {
        &&& p.direction == Direction::Withdraw
        &&& settlement_closed(pre, post, p)
        &&& post.ledger == pre.ledger
        &&& post.reserves == pre.reserves
        &&& log_appended(
            post.log,
            pre.log,
            SettlementEvent {
                kind: EventKind::Withdrawn,
                account: p.account,
                asset: p.asset,
                amount: p.amount,
                share_delta: p.amount,
                timestamp: now,
            },
        )
    }
}

/// How a vault state steps when a withdrawal fails: the compensation is
/// the exact inverse of the speculative mutation — the settlement's amount
/// is minted back and the reserve re-credited — `Failed` is logged, and
/// the record dropped.
pub open spec fn withdraw_compensated(pre: Vault, post: Vault, id: u64, now: u64) -> bool {
    &&& pre.inv()
    &&& post.inv()
    &&& pre.resolve_withdraw_err(id, false) is None
    &&& spec_find_id(pre.open_settlements(), id) matches Some(p) && {
        &&& p.direction == Direction::Withdraw
        &&& settlement_closed(pre, post, p)
        &&& forall|acc2: AccountId, a2: TokenType|
            #[trigger] post.shares(acc2, a2) == if acc2 == p.account && a2 == p.asset {
                (pre.shares(p.account, p.asset) + p.amount) as u128
            } else {
                pre.shares(acc2, a2)
            }
        &&& forall|a2: TokenType| #[trigger] post.supply(a2) == if a2 == p.asset {
            (pre.supply(p.asset) + p.amount) as u128
        } else {
            pre.supply(a2)
        }
        &&& forall|a2: TokenType| #[trigger] post.reserve(a2) == if a2 == p.asset {
            (pre.reserve(p.asset) + p.amount) as u128
        } else {
            pre.reserve(a2)
        }
        &&& log_appended(
            post.log,
            pre.log,
            SettlementEvent {
                kind: EventKind::Failed,
                account: p.account,
                asset: p.asset,
                amount: p.amount,
                share_delta: 0,
                timestamp: now,
            },
        )
    }
}

} // verus!
