//! Decoded chain events: a 32-byte topic hash plus payload words.

use vstd::prelude::*;
use crate::{Address, W256};

verus! {

/// High half of the reserve-snapshot (`Sync`) event topic of a
/// constant-product pair.
pub const PAIR_SYNC_TOPIC_HI: u128 = 0x1c411e9a96e071241c2f21f7726b17ae;
/// Low half of the reserve-snapshot (`Sync`) event topic.
pub const PAIR_SYNC_TOPIC_LO: u128 = 0x89e3cab4c78be50e062b03a9fffbbad1;

/// High half of the concentrated-liquidity `Swap` event topic.
pub const POOL_SWAP_TOPIC_HI: u128 = 0xc42079f94a6350d7e6235f2917492492;
/// Low half of the concentrated-liquidity `Swap` event topic.
pub const POOL_SWAP_TOPIC_LO: u128 = 0x8cc2ac818eb64fed8004e115fbcca67f;

/// High half of the concentrated-liquidity `Mint` event topic.
pub const POOL_MINT_TOPIC_HI: u128 = 0x7a53080ba414158be7ec69b987b5fb7d;
/// Low half of the concentrated-liquidity `Mint` event topic.
pub const POOL_MINT_TOPIC_LO: u128 = 0x07dee101fe85488f0853ae16239d0bde;

/// High half of the concentrated-liquidity `Burn` event topic.
pub const POOL_BURN_TOPIC_HI: u128 = 0x0c396cd989a39f4459b5fa1aed6a9a8d;
/// Low half of the concentrated-liquidity `Burn` event topic.
pub const POOL_BURN_TOPIC_LO: u128 = 0xcdbc45908acfd67e028cd568da98982c;

/// High half of the vault `Deposit` event topic.
pub const VAULT_DEPOSIT_TOPIC_HI: u128 = 0xdcbc1c05240f31ff3ad067ef1ee35ce4;
/// Low half of the vault `Deposit` event topic.
pub const VAULT_DEPOSIT_TOPIC_LO: u128 = 0x997762752e3a095284754544f4c709d7;

/// High half of the vault `Withdraw` event topic.
pub const VAULT_WITHDRAW_TOPIC_HI: u128 = 0xfbde797d201c681b91056529119e0b02;
/// Low half of the vault `Withdraw` event topic.
pub const VAULT_WITHDRAW_TOPIC_LO: u128 = 0x407c7bb96a4a2c75c01fc9667232c8db;

/// One decoded event: emitting address, block height, signature topic, and
/// the payload flattened to 256-bit words.
pub struct EventLog {
    pub address: Address,
    pub block_number: u64,
    pub topic: W256,
    pub words: Vec<W256>,
}

/// Builds a topic word from its two halves.
pub open spec fn spec_topic(hi: u128, lo: u128) -> W256 {
    W256 { hi, lo }
}

/// Builds a topic word from its two halves.
pub fn topic(hi: u128, lo: u128) -> (r: W256)
    ensures
        r == spec_topic(hi, lo),
{
    W256 { hi, lo }
}

} // verus!
