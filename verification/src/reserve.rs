//! The reserve tracker: per-asset on-hand balance.
//!
//! The reserve is the ledger's belief about how much of each asset external
//! custody holds.  It is credited and debited only by confirmed settlements
//! and by the speculative leg of a withdrawal; `credit` and `debit` are its
//! only mutators, and a debit that would go below zero is rejected before
//! any change.

use vstd::prelude::*;
use crate::asset::TokenType;
use crate::errors::VaultError;

verus! {

/// Per-asset amounts believed held in external custody.
pub struct ReserveTracker {
    pub wnear: u128,
    pub usdc: u128,
    pub usdt: u128,
}

impl ReserveTracker {
    /// The tracked balance of an asset.
    pub open spec fn spec_balance(self, asset: TokenType) -> u128 {
        match asset {
            TokenType::WNEAR => self.wnear,
            TokenType::USDC => self.usdc,
            TokenType::USDT => self.usdt,
        }
    }

    /// An empty tracker: nothing is held yet.
    pub fn new() -> (r: Self)
        ensures
            forall|a: TokenType| #[trigger] r.spec_balance(a) == 0,
    {
        ReserveTracker { wnear: 0, usdc: 0, usdt: 0 }
    }

    /// The current reserve of `asset`.
    pub fn balance(&self, asset: TokenType) -> (r: u128)
        ensures
            r == self.spec_balance(asset),
    {
        match asset {
            TokenType::WNEAR => self.wnear,
            TokenType::USDC => self.usdc,
            TokenType::USDT => self.usdt,
        }
    }

    /// Adds `amount` to the reserve of `asset`.  Fails with `Overflow`, and
    /// changes nothing, exactly when the sum would leave the numeric domain.
    pub fn credit(&mut self, asset: TokenType, amount: u128) -> (r: Result<(), VaultError>)
        ensures
            match r {
                Ok(()) => {
                    &&& old(self).spec_balance(asset) + amount <= u128::MAX
                    &&& forall|a: TokenType| #[trigger] final(self).spec_balance(a)
                        == if a == asset {
                            (old(self).spec_balance(asset) + amount) as u128
                        } else {
                            old(self).spec_balance(a)
                        }
                },
                Err(e) => {
                    &&& e == VaultError::Overflow
                    &&& old(self).spec_balance(asset) + amount > u128::MAX
                    &&& *final(self) == *old(self)
                },
            },
    {
        let current = self.balance(asset);
        if amount > u128::MAX - current {
            return Err(VaultError::Overflow);
        }
        let updated = current + amount;
        match asset {
            TokenType::WNEAR => { self.wnear = updated; }
            TokenType::USDC => { self.usdc = updated; }
            TokenType::USDT => { self.usdt = updated; }
        }
        Ok(())
    }

    /// Removes `amount` from the reserve of `asset`.  Fails with
    /// `InsufficientReserve`, and changes nothing, exactly when the reserve
    /// holds less than `amount`: the balance never goes below zero.
    pub fn debit(&mut self, asset: TokenType, amount: u128) -> (r: Result<(), VaultError>)
        ensures
            match r {
                Ok(()) => {
                    &&& amount <= old(self).spec_balance(asset)
                    &&& forall|a: TokenType| #[trigger] final(self).spec_balance(a)
                        == if a == asset {
                            (old(self).spec_balance(asset) - amount) as u128
                        } else {
                            old(self).spec_balance(a)
                        }
                },
                Err(e) => {
                    &&& e == VaultError::InsufficientReserve
                    &&& amount > old(self).spec_balance(asset)
                    &&& *final(self) == *old(self)
                },
            },
    {
        let current = self.balance(asset);
        if amount > current {
            return Err(VaultError::InsufficientReserve);
        }
        let updated = current - amount;
        match asset {
            TokenType::WNEAR => { self.wnear = updated; }
            TokenType::USDC => { self.usdc = updated; }
            TokenType::USDT => { self.usdt = updated; }
        }
        Ok(())
    }
}

} // verus!
