//! The share ledger: per-account, per-asset share balances and the per-asset
//! total supply.
//!
//! Shares are fungible units of ownership claim against one asset's reserve.
//! The ledger's defining invariant is conservation: for every asset, the sum
//! of all account balances equals that asset's total supply.  `mint` and
//! `burn` are the only mutators; neither touches the reserve or the event
//! log.

use vstd::prelude::*;
use crate::asset::{AccountId, TokenType};
use crate::errors::VaultError;

verus! {

/// One (account, asset) balance.  Accounts are created implicitly on first
/// touch; an absent entry means a balance of zero.
#[derive(Clone, Copy, PartialEq, Eq, Structural, Debug)]
pub struct ShareEntry {
    pub account: AccountId,
    pub asset: TokenType,
    pub balance: u128,
}

/// Whether `e` is the balance entry of `account` for `asset`.
pub open spec fn key_matches(e: ShareEntry, account: AccountId, asset: TokenType) -> bool {
    e.account == account && e.asset == asset
}

/// No two entries carry the same (account, asset) key.
pub open spec fn unique_keys(s: Seq<ShareEntry>) -> bool {
    forall|i: int, j: int|
        #![trigger s[i], s[j]]
        0 <= i < j < s.len() ==> !(s[i].account == s[j].account && s[i].asset == s[j].asset)
}

/// Whether some entry carries the (account, asset) key.
pub open spec fn has_key(s: Seq<ShareEntry>, account: AccountId, asset: TokenType) -> bool {
    exists|i: int| 0 <= i < s.len() && key_matches(#[trigger] s[i], account, asset)
}

/// The balance of the first entry keyed (account, asset), or zero if none is.
pub open spec fn entry_balance(s: Seq<ShareEntry>, account: AccountId, asset: TokenType) -> u128
    decreases s.len(),
{
    if s.len() == 0 {
        0
    } else if key_matches(s.first(), account, asset) {
        s.first().balance
    } else {
        entry_balance(s.drop_first(), account, asset)
    }
}

/// The sum of the balances of all entries for `asset`.
pub open spec fn entry_sum(s: Seq<ShareEntry>, asset: TokenType) -> int
    decreases s.len(),
{
    if s.len() == 0 {
        0
    } else {
        (if s.first().asset == asset {
            s.first().balance as int
        } else {
            0
        }) + entry_sum(s.drop_first(), asset)
    }
}

/// A sum of balances is never negative.
pub proof fn lemma_entry_sum_nonneg(s: Seq<ShareEntry>, asset: TokenType)
    ensures
        entry_sum(s, asset) >= 0,
    decreases s.len(),
{
    if s.len() > 0 {
        lemma_entry_sum_nonneg(s.drop_first(), asset);
    }
}

/// No single balance exceeds the sum over its asset.
pub proof fn lemma_entry_balance_le_sum(s: Seq<ShareEntry>, account: AccountId, asset: TokenType)
    ensures
        entry_balance(s, account, asset) <= entry_sum(s, asset),
    decreases s.len(),
{
    if s.len() > 0 {
        if key_matches(s.first(), account, asset) {
            lemma_entry_sum_nonneg(s.drop_first(), asset);
        } else {
            lemma_entry_balance_le_sum(s.drop_first(), account, asset);
            lemma_entry_sum_nonneg(s.drop_first(), asset);
        }
    }
}

/// Appending an entry adds its balance to the sum of its asset alone.
pub proof fn lemma_entry_sum_push(s: Seq<ShareEntry>, e: ShareEntry, asset: TokenType)
    ensures
        entry_sum(s.push(e), asset) == entry_sum(s, asset) + if e.asset == asset {
            e.balance as int
        } else {
            0
        },
    decreases s.len(),
{
    if s.len() == 0 {
        assert(s.push(e).first() == e);
        assert(s.push(e).drop_first() =~= Seq::<ShareEntry>::empty());
        assert(entry_sum(s.push(e).drop_first(), asset) == 0);
    } else {
        assert(s.push(e).first() == s.first());
        assert(s.push(e).drop_first() =~= s.drop_first().push(e));
        lemma_entry_sum_push(s.drop_first(), e, asset);
    }
}

/// Appending an entry leaves every present key's balance unchanged, gives
/// the new entry's key its balance, and leaves absent keys at zero.
pub proof fn lemma_entry_balance_push(
    s: Seq<ShareEntry>,
    e: ShareEntry,
    account: AccountId,
    asset: TokenType,
)
    ensures
        entry_balance(s.push(e), account, asset) == if has_key(s, account, asset) {
            entry_balance(s, account, asset)
        } else if key_matches(e, account, asset) {
            e.balance
        } else {
            0u128
        },
    decreases s.len(),
{
    if s.len() == 0 {
        assert(s.push(e).first() == e);
        assert(s.push(e).drop_first() =~= Seq::<ShareEntry>::empty());
        assert(entry_balance(s.push(e).drop_first(), account, asset) == 0);
        assert(!has_key(s, account, asset));
    } else {
        assert(s.push(e).first() == s.first());
        if key_matches(s.first(), account, asset) {
            assert(has_key(s, account, asset));
        } else {
            assert(s.push(e).drop_first() =~= s.drop_first().push(e));
            lemma_entry_balance_push(s.drop_first(), e, account, asset);
            assert(has_key(s.drop_first(), account, asset) == has_key(s, account, asset)) by {
                if has_key(s.drop_first(), account, asset) {
                    let i = choose|i: int|
                        0 <= i < s.drop_first().len() && key_matches(
                            #[trigger] s.drop_first()[i],
                            account,
                            asset,
                        );
                    assert(key_matches(s[i + 1], account, asset));
                }
                if has_key(s, account, asset) {
                    let i = choose|i: int|
                        0 <= i < s.len() && key_matches(#[trigger] s[i], account, asset);
                    assert(i != 0);
                    assert(key_matches(s.drop_first()[i - 1], account, asset));
                }
            }
        }
    }
}

/// If no entry carries the key, its balance is zero.
pub proof fn lemma_entry_balance_absent(s: Seq<ShareEntry>, account: AccountId, asset: TokenType)
    requires
        !has_key(s, account, asset),
    ensures
        entry_balance(s, account, asset) == 0,
    decreases s.len(),
{
    if s.len() > 0 {
        assert(!key_matches(s.first(), account, asset)) by {
            if key_matches(s.first(), account, asset) {
                assert(key_matches(s[0], account, asset));
            }
        }
        assert(!has_key(s.drop_first(), account, asset)) by {
            if has_key(s.drop_first(), account, asset) {
                let i = choose|i: int|
                    0 <= i < s.drop_first().len() && key_matches(
                        #[trigger] s.drop_first()[i],
                        account,
                        asset,
                    );
                assert(key_matches(s[i + 1], account, asset));
            }
        }
        lemma_entry_balance_absent(s.drop_first(), account, asset);
    }
}

/// The first entry keyed (account, asset) carries that key's balance.
pub proof fn lemma_entry_balance_at(s: Seq<ShareEntry>, i: int, account: AccountId, asset: TokenType)
    requires
        0 <= i < s.len(),
        key_matches(s[i], account, asset),
        forall|j: int| 0 <= j < i ==> !key_matches(#[trigger] s[j], account, asset),
    ensures
        entry_balance(s, account, asset) == s[i].balance,
    decreases i,
{
    if i == 0 {
        assert(key_matches(s.first(), account, asset));
    } else {
        assert(!key_matches(s.first(), account, asset));
        assert(s.drop_first()[i - 1] == s[i]);
        assert forall|j: int| 0 <= j < i - 1 implies !key_matches(
            #[trigger] s.drop_first()[j],
            account,
            asset,
        ) by {
            assert(s.drop_first()[j] == s[j + 1]);
        }
        lemma_entry_balance_at(s.drop_first(), i - 1, account, asset);
    }
}

/// Replacing the first entry of a key by one with the same key moves that
/// key's balance to the new value and leaves every other key's unchanged.
pub proof fn lemma_entry_balance_update(
    s: Seq<ShareEntry>,
    i: int,
    e: ShareEntry,
    account: AccountId,
    asset: TokenType,
)
    requires
        0 <= i < s.len(),
        e.account == s[i].account,
        e.asset == s[i].asset,
        forall|j: int| 0 <= j < i ==> !key_matches(#[trigger] s[j], e.account, e.asset),
    ensures
        entry_balance(s.update(i, e), account, asset) == if account == e.account && asset
            == e.asset {
            e.balance
        } else {
            entry_balance(s, account, asset)
        },
    decreases i,
{
    let t = s.update(i, e);
    if i == 0 {
        assert(t.first() == e);
        if account == e.account && asset == e.asset {
        } else {
            assert(!key_matches(t.first(), account, asset));
            assert(!key_matches(s.first(), account, asset));
            assert(t.drop_first() =~= s.drop_first());
        }
    } else {
        assert(t.first() == s.first());
        assert(!key_matches(s.first(), e.account, e.asset));
        if key_matches(s.first(), account, asset) {
        } else {
            assert(t.drop_first() =~= s.drop_first().update(i - 1, e));
            assert forall|j: int| 0 <= j < i - 1 implies !key_matches(
                #[trigger] s.drop_first()[j],
                e.account,
                e.asset,
            ) by {
                assert(s.drop_first()[j] == s[j + 1]);
            }
            assert(s.drop_first()[i - 1] == s[i]);
            lemma_entry_balance_update(s.drop_first(), i - 1, e, account, asset);
        }
    }
}

/// Replacing an entry by one with the same key shifts the sum of that
/// asset by the difference of the balances and no other sum.
pub proof fn lemma_entry_sum_update(s: Seq<ShareEntry>, i: int, e: ShareEntry, asset: TokenType)
    requires
        0 <= i < s.len(),
        e.asset == s[i].asset,
    ensures
        entry_sum(s.update(i, e), asset) == entry_sum(s, asset) + if e.asset == asset {
            e.balance - s[i].balance
        } else {
            0
        },
    decreases i,
{
    let t = s.update(i, e);
    if i == 0 {
        assert(t.first() == e);
        assert(t.drop_first() =~= s.drop_first());
    } else {
        assert(t.first() == s.first());
        assert(t.drop_first() =~= s.drop_first().update(i - 1, e));
        assert(s.drop_first()[i - 1] == s[i]);
        lemma_entry_sum_update(s.drop_first(), i - 1, e, asset);
    }
}

/// Per-account, per-asset share balances with per-asset total supply.
///
/// Only `mint` and `burn` mutate a ledger; both keep `wf`.
pub struct ShareLedger {
    pub entries: Vec<ShareEntry>,
    pub supply_wnear: u128,
    pub supply_usdc: u128,
    pub supply_usdt: u128,
}

impl ShareLedger {
    /// The total supply of shares for `asset`.
    pub open spec fn spec_supply(self, asset: TokenType) -> u128 {
        match asset {
            TokenType::WNEAR => self.supply_wnear,
            TokenType::USDC => self.supply_usdc,
            TokenType::USDT => self.supply_usdt,
        }
    }

    /// The share balance of (account, asset).
    pub open spec fn spec_balance(self, account: AccountId, asset: TokenType) -> u128 {
        entry_balance(self.entries@, account, asset)
    }

    /// Well-formedness: one entry per key, and conservation — for every
    /// asset the balances sum exactly to the total supply.
    pub open spec fn wf(self) -> bool {
        &&& unique_keys(self.entries@)
        &&& forall|a: TokenType| #[trigger] self.spec_supply(a) == entry_sum(self.entries@, a)
    }

    /// An empty ledger: every balance and every supply is zero.
    pub fn new() -> (r: Self)
        ensures
            r.wf(),
            forall|a: TokenType| #[trigger] r.spec_supply(a) == 0,
            forall|acc: AccountId, a: TokenType| #[trigger] r.spec_balance(acc, a) == 0,
    {
        let r = ShareLedger {
            entries: Vec::new(),
            supply_wnear: 0,
            supply_usdc: 0,
            supply_usdt: 0,
        };
        proof {
            assert forall|a: TokenType| #[trigger] r.spec_supply(a) == entry_sum(
                r.entries@,
                a,
            ) by {}
        }
        r
    }

    /// The index of the entry keyed (account, asset), if the key is present.
    fn find_entry(&self, account: AccountId, asset: TokenType) -> (r: Option<usize>)
        ensures
            match r {
                Some(i) => {
                    &&& i < self.entries@.len()
                    &&& key_matches(self.entries@[i as int], account, asset)
                    &&& forall|j: int|
                        0 <= j < i ==> !key_matches(#[trigger] self.entries@[j], account, asset)
                },
                None => !has_key(self.entries@, account, asset),
            },
    {
        let n: usize = self.entries.len();
        let mut k: usize = 0;
        while k < n
            invariant
                n == self.entries@.len(),
                k <= n,
                forall|j: int| 0 <= j < k ==> !key_matches(#[trigger] self.entries@[j], account, asset),
            decreases n - k,
        {
            let e = self.entries[k];
            if e.account == account && e.asset == asset {
                return Some(k);
            }
            k = k + 1;
        }
        None
    }

    /// The share balance of `account` for `asset`; zero if never touched.
    pub fn balance_of(&self, account: AccountId, asset: TokenType) -> (r: u128)
        ensures
            r == self.spec_balance(account, asset),
    {
        match self.find_entry(account, asset) {
            Some(i) => {
                proof {
                    lemma_entry_balance_at(self.entries@, i as int, account, asset);
                }
                self.entries[i].balance
            }
            None => {
                proof {
                    lemma_entry_balance_absent(self.entries@, account, asset);
                }
                0
            }
        }
    }

    /// The total supply of shares for `asset`.
    pub fn total_supply(&self, asset: TokenType) -> (r: u128)
        ensures
            r == self.spec_supply(asset),
    {
        match asset {
            TokenType::WNEAR => self.supply_wnear,
            TokenType::USDC => self.supply_usdc,
            TokenType::USDT => self.supply_usdt,
        }
    }

    /// Stores `v` as the supply of `asset`.
    fn set_supply(&mut self, asset: TokenType, v: u128)
        ensures
            forall|a: TokenType| #[trigger] final(self).spec_supply(a) == if a == asset {
                v
            } else {
                old(self).spec_supply(a)
            },
            final(self).entries@ == old(self).entries@,
    {
        match asset {
            TokenType::WNEAR => { self.supply_wnear = v; }
            TokenType::USDC => { self.supply_usdc = v; }
            TokenType::USDT => { self.supply_usdt = v; }
        }
    }

    /// Mints `amount` shares of `asset` to `account`: the balance and the
    /// asset's total supply both grow by `amount`.  Fails with `Overflow`,
    /// and changes nothing, exactly when the supply would leave the numeric
    /// domain (conservation makes every balance at most the supply, so no
    /// balance can overflow first).
    pub fn mint(&mut self, account: AccountId, asset: TokenType, amount: u128) -> (r: Result<
        (),
        VaultError,
    >)
        requires
            old(self).wf(),
        ensures
            final(self).wf(),
            match r {
                Ok(()) => {
                    &&& old(self).spec_supply(asset) + amount <= u128::MAX
                    &&& forall|acc2: AccountId, a2: TokenType|
                        #[trigger] final(self).spec_balance(acc2, a2) == if acc2 == account && a2
                            == asset {
                            (old(self).spec_balance(account, asset) + amount) as u128
                        } else {
                            old(self).spec_balance(acc2, a2)
                        }
                    &&& forall|a2: TokenType| #[trigger] final(self).spec_supply(a2) == if a2
                        == asset {
                        (old(self).spec_supply(asset) + amount) as u128
                    } else {
                        old(self).spec_supply(a2)
                    }
                },
                Err(e) => {
                    &&& e == VaultError::Overflow
                    &&& old(self).spec_supply(asset) + amount > u128::MAX
                    &&& *final(self) == *old(self)
                },
            },
    {
        let supply: u128 = self.total_supply(asset);
        if amount > u128::MAX - supply {
            return Err(VaultError::Overflow);
        }
        let ghost s0 = self.entries@;
        match self.find_entry(account, asset) {
            Some(i) => {
                let e = self.entries[i];
                proof {
                    lemma_entry_balance_at(s0, i as int, account, asset);
                    lemma_entry_balance_le_sum(s0, account, asset);
                    assert(old(self).spec_supply(asset) == entry_sum(s0, asset));
                }
                let updated = ShareEntry { account: e.account, asset: e.asset, balance: e.balance + amount };
                self.entries[i] = updated;
                proof {
                    assert forall|acc2: AccountId, a2: TokenType|
                        #[trigger] entry_balance(self.entries@, acc2, a2) == if acc2 == account
                            && a2 == asset {
                            (entry_balance(s0, account, asset) + amount) as u128
                        } else {
                            entry_balance(s0, acc2, a2)
                        } by {
                        lemma_entry_balance_update(s0, i as int, updated, acc2, a2);
                    }
                    assert forall|a2: TokenType| #[trigger] entry_sum(self.entries@, a2)
                        == entry_sum(s0, a2) + (if a2 == asset {
                        amount as int
                    } else {
                        0
                    }) by {
                        lemma_entry_sum_update(s0, i as int, updated, a2);
                    }
                    assert(unique_keys(self.entries@)) by {
                        assert forall|p: int, q: int|
                            #![trigger self.entries@[p], self.entries@[q]]
                            0 <= p < q < self.entries@.len() implies !(self.entries@[p].account
                            == self.entries@[q].account && self.entries@[p].asset
                            == self.entries@[q].asset) by {
                            assert(s0[p].account == self.entries@[p].account && s0[p].asset
                                == self.entries@[p].asset);
                            assert(s0[q].account == self.entries@[q].account && s0[q].asset
                                == self.entries@[q].asset);
                        }
                    }
                }
            }
            None => {
                proof {
                    lemma_entry_balance_absent(s0, account, asset);
                }
                let fresh = ShareEntry { account, asset, balance: amount };
                self.entries.push(fresh);
                proof {
                    assert forall|acc2: AccountId, a2: TokenType|
                        #[trigger] entry_balance(self.entries@, acc2, a2) == if acc2 == account
                            && a2 == asset {
                            (entry_balance(s0, account, asset) + amount) as u128
                        } else {
                            entry_balance(s0, acc2, a2)
                        } by {
                        lemma_entry_balance_push(s0, fresh, acc2, a2);
                        if !(acc2 == account && a2 == asset) && !has_key(s0, acc2, a2) {
                            lemma_entry_balance_absent(s0, acc2, a2);
                        }
                    }
                    assert forall|a2: TokenType| #[trigger] entry_sum(self.entries@, a2)
                        == entry_sum(s0, a2) + (if a2 == asset {
                        amount as int
                    } else {
                        0
                    }) by {
                        lemma_entry_sum_push(s0, fresh, a2);
                    }
                    assert(unique_keys(self.entries@)) by {
                        assert forall|i: int, j: int|
                            #![trigger self.entries@[i], self.entries@[j]]
                            0 <= i < j < self.entries@.len() implies !(self.entries@[i].account
                            == self.entries@[j].account && self.entries@[i].asset
                            == self.entries@[j].asset) by {
                            if j == self.entries@.len() - 1 {
                                assert(self.entries@[i] == s0[i]);
                            }
                        }
                    }
                }
            }
        }
        let updated_supply: u128 = supply + amount;
        self.set_supply(asset, updated_supply);
        proof {
            assert forall|a: TokenType| #[trigger] self.spec_supply(a) == entry_sum(
                self.entries@,
                a,
            ) by {
                assert(old(self).spec_supply(a) == entry_sum(s0, a));
            }
        }
        Ok(())
    }

    /// Burns `amount` shares of `asset` from `account`: the balance and the
    /// asset's total supply both shrink by `amount`.  Fails with
    /// `InsufficientShares`, and changes nothing, exactly when the balance
    /// is below `amount`.
    pub fn burn(&mut self, account: AccountId, asset: TokenType, amount: u128) -> (r: Result<
        (),
        VaultError,
    >)
        requires
            old(self).wf(),
        ensures
            final(self).wf(),
            match r {
                Ok(()) => {
                    &&& amount <= old(self).spec_balance(account, asset)
                    &&& forall|acc2: AccountId, a2: TokenType|
                        #[trigger] final(self).spec_balance(acc2, a2) == if acc2 == account && a2
                            == asset {
                            (old(self).spec_balance(account, asset) - amount) as u128
                        } else {
                            old(self).spec_balance(acc2, a2)
                        }
                    &&& forall|a2: TokenType| #[trigger] final(self).spec_supply(a2) == if a2
                        == asset {
                        (old(self).spec_supply(asset) - amount) as u128
                    } else {
                        old(self).spec_supply(a2)
                    }
                },
                Err(e) => {
                    &&& e == VaultError::InsufficientShares
                    &&& amount > old(self).spec_balance(account, asset)
                    &&& *final(self) == *old(self)
                },
            },
    {
        let ghost s0 = self.entries@;
        match self.find_entry(account, asset) {
            Some(i) => {
                let e = self.entries[i];
                proof {
                    lemma_entry_balance_at(s0, i as int, account, asset);
                    lemma_entry_balance_le_sum(s0, account, asset);
                    assert(old(self).spec_supply(asset) == entry_sum(s0, asset));
                }
                if amount > e.balance {
                    return Err(VaultError::InsufficientShares);
                }
                let updated = ShareEntry { account: e.account, asset: e.asset, balance: e.balance - amount };
                self.entries[i] = updated;
                proof {
                    assert forall|acc2: AccountId, a2: TokenType|
                        #[trigger] entry_balance(self.entries@, acc2, a2) == if acc2 == account
                            && a2 == asset {
                            (entry_balance(s0, account, asset) - amount) as u128
                        } else {
                            entry_balance(s0, acc2, a2)
                        } by {
                        lemma_entry_balance_update(s0, i as int, updated, acc2, a2);
                    }
                    assert forall|a2: TokenType| #[trigger] entry_sum(self.entries@, a2)
                        == entry_sum(s0, a2) - (if a2 == asset {
                        amount as int
                    } else {
                        0
                    }) by {
                        lemma_entry_sum_update(s0, i as int, updated, a2);
                    }
                    assert(unique_keys(self.entries@)) by {
                        assert forall|p: int, q: int|
                            #![trigger self.entries@[p], self.entries@[q]]
                            0 <= p < q < self.entries@.len() implies !(self.entries@[p].account
                            == self.entries@[q].account && self.entries@[p].asset
                            == self.entries@[q].asset) by {
                            assert(s0[p].account == self.entries@[p].account && s0[p].asset
                                == self.entries@[p].asset);
                            assert(s0[q].account == self.entries@[q].account && s0[q].asset
                                == self.entries@[q].asset);
                        }
                    }
                }
                let supply: u128 = self.total_supply(asset);
                self.set_supply(asset, supply - amount);
                proof {
                    assert forall|a: TokenType| #[trigger] self.spec_supply(a) == entry_sum(
                        self.entries@,
                        a,
                    ) by {
                        assert(old(self).spec_supply(a) == entry_sum(s0, a));
                    }
                }
                Ok(())
            }
            None => {
                proof {
                    lemma_entry_balance_absent(s0, account, asset);
                }
                if amount == 0 {
                    // A zero burn of an untouched key succeeds without any change.
                    Ok(())
                } else {
                    Err(VaultError::InsufficientShares)
                }
            }
        }
    }
}

} // verus!
