//! Metadata of the yield strategies a custody adapter may run.
//!
//! The vault core treats the adapter as opaque; these descriptions are the
//! only strategy-specific facts it exposes to callers.

use vstd::prelude::*;
use vstd::string::StringExecFns;

verus! {

/// The ways external custody can put allocated capital to work.
#[derive(Clone, Copy, PartialEq, Eq, Structural, Debug)]
pub enum YieldStrategy {
    /// Staking wNEAR for NEAR rewards.
    Staking,
    /// Lending USDC for interest.
    Lending,
    /// Liquidity provision for trading fees.
    LiquidityProvision,
}

impl YieldStrategy {
    /// A human-readable description of the strategy.
    pub fn get_description(&self) -> (r: String)
        ensures
            r@ == match self {
                YieldStrategy::Staking => "Stake wNEAR to earn NEAR rewards"@,
                YieldStrategy::Lending => "Lend USDC to earn interest"@,
                YieldStrategy::LiquidityProvision => "Provide liquidity for trading fees"@,
            },
    {
        match self {
            YieldStrategy::Staking => String::from_str("Stake wNEAR to earn NEAR rewards"),
            YieldStrategy::Lending => String::from_str("Lend USDC to earn interest"),
            YieldStrategy::LiquidityProvision => String::from_str("Provide liquidity for trading fees"),
        }
    }

    /// The expected yearly yield of the strategy, in percent.
    pub fn get_expected_apy(&self) -> (r: u16)
        ensures
            r == match self {
                YieldStrategy::Staking => 12u16,
                YieldStrategy::Lending => 8u16,
                YieldStrategy::LiquidityProvision => 15u16,
            },
    {
        match self {
            YieldStrategy::Staking => 12,
            YieldStrategy::Lending => 8,
            YieldStrategy::LiquidityProvision => 15,
        }
    }
}

} // verus!
