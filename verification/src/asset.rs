//! Asset classes and external identities.
//!
//! An account is an opaque external identity: the vault never inspects it,
//! it only keys ledger entries and settlements by it, so it is carried as a
//! plain numeric id.  The asset classes form a closed enumeration; extending
//! it means adding a custody-adapter binding to the vault configuration.

use vstd::prelude::*;

verus! {

/// An opaque external identity: a caller, an owner, or the custody adapter
/// (token contract) bound to an asset.
pub type AccountId = u64;

/// The closed set of asset kinds the vault can hold in custody.
#[derive(Clone, Copy, PartialEq, Eq, Structural, Debug, Hash)]
pub enum TokenType {
    WNEAR,
    USDC,
    USDT,
}

} // verus!
