//! The error taxonomy of the vault.
//!
//! Every rejection is synchronous and leaves the state untouched; the
//! contracts of the operations say for each variant exactly when it comes.

use vstd::prelude::*;

verus! {

/// Everything a vault operation can reject with.
#[derive(Clone, Copy, PartialEq, Eq, Structural, Debug)]
pub enum VaultError {
    /// The request named a zero amount.
    ZeroAmount,
    /// The amount is below the asset's configured minimum.
    BelowMinimum,
    /// The amount is above the asset's configured per-request maximum.
    AboveMaximum,
    /// Confirming the deposit would push the reserve past the asset's capacity.
    AboveCapacity,
    /// The vault is paused.
    VaultPaused,
    /// A settlement is already open for this (account, asset) pair.
    SettlementInProgress,
    /// The account holds fewer shares than the request would burn.
    InsufficientShares,
    /// The reserve holds less of the asset than the request would release.
    InsufficientReserve,
    /// The caller is not the configured owner.
    Unauthorized,
    /// No settlement with this id is open: it was already resolved, it was
    /// never issued, or the callback does not match its direction.
    DoubleResolution,
    /// A counter would leave its numeric domain; nothing was committed.
    Overflow,
}

} // verus!
