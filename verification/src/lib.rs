//! In-memory simulation core for decentralized-exchange liquidity sources.
//!
//! The crate keeps off-chain mirrors of three kinds of on-chain liquidity
//! (constant-product pools, concentrated-liquidity pools, tokenized vaults),
//! keeps them synchronized through decoded events and raw storage diffs, and
//! answers swap-simulation, price and derivative queries against the mirrors.

pub mod amm;
pub mod erc_4626;
pub mod errors;
pub mod events;
pub mod math;
pub mod storage;
pub mod uniswap_v2;
pub mod uniswap_v3;

use vstd::prelude::*;

verus! {

/// A 256-bit storage word, as the high and low 128-bit halves.
#[derive(Clone, Copy, PartialEq, Eq, Structural, Debug)]
pub struct W256 {
    pub hi: u128,
    pub lo: u128,
}

/// A 160-bit contract or token address, held as plain integers.
#[derive(Clone, Copy, PartialEq, Eq, Structural, Debug)]
pub struct Address {
    /// The 32 most significant bits of the address.
    pub hi: u32,
    /// The 128 least significant bits of the address.
    pub lo: u128,
}

impl Address {
    /// Strict order on addresses, most significant bits first.
    pub open spec fn spec_lt(self, other: Address) -> bool {
        self.hi < other.hi || (self.hi == other.hi && self.lo < other.lo)
    }

    /// Compares two addresses under the canonical address order.
    pub fn lt(&self, other: &Address) -> (r: bool)
        ensures
            r == self.spec_lt(*other),
    {
        self.hi < other.hi || (self.hi == other.hi && self.lo < other.lo)
    }
}

} // verus!
