//! AMM variant dispatcher: a closed sum type wrapping exactly one engine,
//! forwarding every contract operation; equality is by address only.

use vstd::prelude::*;
use crate::Address;
use vstd::std_specs::cmp::PartialEqSpec;
use crate::W256;
use crate::errors::{ArithmeticError, EventLogError, SwapSimulationError};
use crate::events::{
    EventLog, PAIR_SYNC_TOPIC_HI, PAIR_SYNC_TOPIC_LO, POOL_BURN_TOPIC_HI, POOL_BURN_TOPIC_LO,
    POOL_MINT_TOPIC_HI, POOL_MINT_TOPIC_LO, POOL_SWAP_TOPIC_HI, POOL_SWAP_TOPIC_LO,
    VAULT_DEPOSIT_TOPIC_HI, VAULT_DEPOSIT_TOPIC_LO, VAULT_WITHDRAW_TOPIC_HI,
    VAULT_WITHDRAW_TOPIC_LO,
};
use crate::math::{Ratio, WideRatio};
use crate::storage::{StorageMap, seq_get};
use crate::erc_4626::{ERC4626Vault, VAULT_TOTALS_SLOT};
use crate::uniswap_v2::{UniswapV2Pool, PAIR_RESERVES_SLOT};
use crate::uniswap_v3::UniswapV3Pool;

verus! {

/// One liquidity source behind the uniform operation set.
#[derive(Clone, Debug)]
pub enum AMM {
    UniswapV2Pool(UniswapV2Pool),
    UniswapV3Pool(UniswapV3Pool),
    ERC4626Vault(ERC4626Vault),
}

impl AMM {
    /// The wrapped engine is well formed.
    pub open spec fn wf(self) -> bool {
        match self {
            AMM::UniswapV2Pool(p) => p.wf(),
            AMM::UniswapV3Pool(p) => p@.wf(),
            AMM::ERC4626Vault(v) => v.wf(),
        }
    }

    /// The stable identity of the wrapped instance.
    pub open spec fn spec_address(self) -> Address {
        match self {
            AMM::UniswapV2Pool(p) => p.address,
            AMM::UniswapV3Pool(p) => p.address,
            AMM::ERC4626Vault(v) => v.vault_token,
        }
    }

    /// Stable identity, pure.
    pub fn address(&self) -> (r: Address)
        ensures
            r == self.spec_address(),
    {
        match self {
            AMM::UniswapV2Pool(p) => p.address(),
            AMM::UniswapV3Pool(p) => p.address(),
            AMM::ERC4626Vault(v) => v.address(),
        }
    }

    /// The fixed two-token set of the instance.
    pub fn tokens(&self) -> (r: Vec<Address>)
        ensures
            *self matches AMM::UniswapV2Pool(p) ==> r@ =~= seq![p.token_a, p.token_b],
            *self matches AMM::UniswapV3Pool(p) ==> r@ =~= seq![p.token_a, p.token_b],
            *self matches AMM::ERC4626Vault(v) ==> r@ =~= seq![v.vault_token, v.asset_token],
    {
        match self {
            AMM::UniswapV2Pool(p) => p.tokens(),
            AMM::UniswapV3Pool(p) => p.tokens(),
            AMM::ERC4626Vault(v) => v.tokens(),
        }
    }

    /// The topics the instance needs subscribed on its behalf: the exact
    /// signature set its `sync_from_log` recognizes, fixed per variant.
    pub fn sync_on_event_signatures(&self) -> (r: Vec<W256>)
        ensures
            *self matches AMM::UniswapV2Pool(p) ==> r@ =~= seq![
                W256 { hi: PAIR_SYNC_TOPIC_HI, lo: PAIR_SYNC_TOPIC_LO },
            ],
            *self matches AMM::UniswapV3Pool(p) ==> r@ =~= seq![
                W256 { hi: POOL_SWAP_TOPIC_HI, lo: POOL_SWAP_TOPIC_LO },
                W256 { hi: POOL_MINT_TOPIC_HI, lo: POOL_MINT_TOPIC_LO },
                W256 { hi: POOL_BURN_TOPIC_HI, lo: POOL_BURN_TOPIC_LO },
            ],
            *self matches AMM::ERC4626Vault(v) ==> r@ =~= seq![
                W256 { hi: VAULT_DEPOSIT_TOPIC_HI, lo: VAULT_DEPOSIT_TOPIC_LO },
                W256 { hi: VAULT_WITHDRAW_TOPIC_HI, lo: VAULT_WITHDRAW_TOPIC_LO },
            ],
    {
        match self {
            AMM::UniswapV2Pool(p) => p.sync_on_event_signatures(),
            AMM::UniswapV3Pool(p) => p.sync_on_event_signatures(),
            AMM::ERC4626Vault(v) => v.sync_on_event_signatures(),
        }
    }

    /// Exports canonical state as ordered storage-slot pairs.
    pub fn reserves(&self) -> (r: StorageMap)
        requires
            self.wf(),
        ensures
            r.wf(),
            *self matches AMM::UniswapV2Pool(p) ==> r@ =~= p.spec_reserves(),
            *self matches AMM::UniswapV3Pool(p) ==> r@ =~= p@.spec_reserves(),
            *self matches AMM::ERC4626Vault(v) ==> r@ =~= v.spec_reserves(),
    {
        match self {
            AMM::UniswapV2Pool(p) => p.reserves(),
            AMM::UniswapV3Pool(p) => p.reserves(),
            AMM::ERC4626Vault(v) => v.reserves(),
        }
    }

    /// Routes one decoded event to the wrapped instance.
    pub fn sync_from_log(&mut self, log: EventLog) -> (r: Result<(), EventLogError>)
        requires
            old(self).wf(),
        ensures
            final(self).wf(),
            *old(self) matches AMM::UniswapV2Pool(p) ==> (*final(self)) matches
                AMM::UniswapV2Pool(q) && (q, r) == spec_v2_log(p, log),
            *old(self) matches AMM::UniswapV3Pool(p) ==> (*final(self)) matches
                AMM::UniswapV3Pool(q) && (q@, r) == p@.spec_sync_from_log(
                log.topic,
                log.words@,
                log.block_number,
            ),
            *old(self) matches AMM::ERC4626Vault(v) ==> (*final(self)) matches AMM::ERC4626Vault(
                w,
            ) && (w, r) == spec_vault_log(v, log),
    {
        match self {
            AMM::UniswapV2Pool(p) => p.sync_from_log(log),
            AMM::UniswapV3Pool(p) => p.sync_from_log(log),
            AMM::ERC4626Vault(v) => v.sync_from_log(log),
        }
    }

    /// Routes one storage diff to the wrapped instance.
    pub fn sync_from_storage(&mut self, diff: &StorageMap) -> (r: Option<()>)
        requires
            old(self).wf(),
        ensures
            final(self).wf(),
            *old(self) matches AMM::UniswapV2Pool(p) ==> (*final(self)) matches
                AMM::UniswapV2Pool(q) && q == p.spec_apply_storage(diff@) && (r is Some <==>
                seq_get(diff@, PAIR_RESERVES_SLOT) is Some),
            *old(self) matches AMM::UniswapV3Pool(p) ==> (*final(self)) matches
                AMM::UniswapV3Pool(q) && q@ == p@.spec_apply_entries(diff@, diff@.len() as int).0
                && (r is Some <==> p@.spec_apply_entries(diff@, diff@.len() as int).1),
            *old(self) matches AMM::ERC4626Vault(v) ==> (*final(self)) matches AMM::ERC4626Vault(
                w,
            ) && w == v.spec_apply_storage(diff@) && (r is Some <==> seq_get(
                diff@,
                VAULT_TOTALS_SLOT,
            ) is Some),
    {
        match self {
            AMM::UniswapV2Pool(p) => p.sync_from_storage(diff),
            AMM::UniswapV3Pool(p) => p.sync_from_storage(diff),
            AMM::ERC4626Vault(v) => v.sync_from_storage(diff),
        }
    }

    /// Projects the output of a hypothetical exact-input swap on the
    /// wrapped instance.
    pub fn simulate_swap(&self, token_in: Address, amount_in: u128) -> (r: Result<
        u128,
        SwapSimulationError,
    >)
        requires
            self.wf(),
        ensures
            *self matches AMM::UniswapV2Pool(p) ==> r == p.spec_simulate_swap(token_in, amount_in),
            *self matches AMM::UniswapV3Pool(p) ==> r == p@.spec_simulate_swap(
                token_in,
                amount_in,
            ),
            *self matches AMM::ERC4626Vault(v) ==> r == v.spec_simulate_swap(token_in, amount_in),
    {
        match self {
            AMM::UniswapV2Pool(p) => p.simulate_swap(token_in, amount_in),
            AMM::UniswapV3Pool(p) => p.simulate_swap(token_in, amount_in),
            AMM::ERC4626Vault(v) => v.simulate_swap(token_in, amount_in),
        }
    }

    /// Projects the same swap and additionally commits the resulting state.
    pub fn simulate_swap_mut(&mut self, token_in: Address, amount_in: u128) -> (r: Result<
        u128,
        SwapSimulationError,
    >)
        requires
            old(self).wf(),
        ensures
            final(self).wf(),
            *old(self) matches AMM::UniswapV2Pool(p) ==> (*final(self)) matches
                AMM::UniswapV2Pool(q) && (q, r) == p.spec_simulate_swap_mut(token_in, amount_in),
            *old(self) matches AMM::UniswapV3Pool(p) ==> (*final(self)) matches
                AMM::UniswapV3Pool(q) && (q@, r) == p@.spec_simulate_swap_mut(token_in, amount_in),
            *old(self) matches AMM::ERC4626Vault(v) ==> (*final(self)) matches AMM::ERC4626Vault(
                w,
            ) && (w, r) == v.spec_simulate_swap_mut(token_in, amount_in),
    {
        match self {
            AMM::UniswapV2Pool(p) => p.simulate_swap_mut(token_in, amount_in),
            AMM::UniswapV3Pool(p) => p.simulate_swap_mut(token_in, amount_in),
            AMM::ERC4626Vault(v) => v.simulate_swap_mut(token_in, amount_in),
        }
    }

    /// Local derivative of the swap output with respect to the input, as an
    /// exact wide ratio; defined on exactly the inputs on which the swap
    /// simulation is, with the same error otherwise.
    pub fn gradient(&self, token_in: Address, amount: u128) -> (r: Result<
        WideRatio,
        SwapSimulationError,
    >)
        requires
            self.wf(),
        ensures
            *self matches AMM::UniswapV2Pool(p) ==> r == p.spec_gradient(token_in, amount),
            *self matches AMM::UniswapV3Pool(p) ==> r == p@.spec_gradient(token_in, amount),
            *self matches AMM::ERC4626Vault(v) ==> r == v.spec_gradient(token_in, amount),
            r matches Ok(g) ==> g.wf(),
    {
        match self {
            AMM::UniswapV2Pool(p) => p.gradient(token_in, amount),
            AMM::UniswapV3Pool(p) => p.gradient(token_in, amount),
            AMM::ERC4626Vault(v) => v.gradient(token_in, amount),
        }
    }

    /// Marginal exchange rate of the counterpart token per unit of
    /// `base_token`, decimal-normalized.
    pub fn calculate_price(&self, base_token: Address) -> (r: Result<Ratio, ArithmeticError>)
        requires
            self.wf(),
        ensures
            *self matches AMM::UniswapV2Pool(p) ==> r == p.spec_calculate_price(base_token),
            *self matches AMM::UniswapV3Pool(p) ==> r == p@.spec_calculate_price(base_token),
            *self matches AMM::ERC4626Vault(v) ==> r == v.spec_calculate_price(base_token),
            r matches Ok(g) ==> g.wf(),
    {
        match self {
            AMM::UniswapV2Pool(p) => p.calculate_price(base_token),
            AMM::UniswapV3Pool(p) => p.calculate_price(base_token),
            AMM::ERC4626Vault(v) => v.calculate_price(base_token),
        }
    }

    /// Counterpart-token lookup; defined for exactly-two-token engines.
    pub fn get_token_out(&self, token_in: Address) -> (r: Address)
        ensures
            *self matches AMM::UniswapV2Pool(p) ==> r == (if token_in == p.token_a {
                p.token_b
            } else {
                p.token_a
            }),
            *self matches AMM::UniswapV3Pool(p) ==> r == (if token_in == p.token_a {
                p.token_b
            } else {
                p.token_a
            }),
            *self matches AMM::ERC4626Vault(v) ==> r == (if token_in == v.vault_token {
                v.asset_token
            } else {
                v.vault_token
            }),
    {
        match self {
            AMM::UniswapV2Pool(p) => p.get_token_out(token_in),
            AMM::UniswapV3Pool(p) => p.get_token_out(token_in),
            AMM::ERC4626Vault(v) => v.get_token_out(token_in),
        }
    }

    /// The counterpart of `token`, or nothing when it is not a member.
    pub fn opp_token(&self, token: Address) -> (r: Option<Address>)
        ensures
            *self matches AMM::UniswapV2Pool(p) ==> r == spec_opp(p.token_a, p.token_b, token),
            *self matches AMM::UniswapV3Pool(p) ==> r == spec_opp(p.token_a, p.token_b, token),
            *self matches AMM::ERC4626Vault(v) ==> r == spec_opp(
                v.vault_token,
                v.asset_token,
                token,
            ),
    {
        match self {
            AMM::UniswapV2Pool(p) => p.opp_token(token),
            AMM::UniswapV3Pool(p) => p.opp_token(token),
            AMM::ERC4626Vault(v) => v.opp_token(token),
        }
    }
}

/// The counterpart of `token` among a fixed two-token set.
pub open spec fn spec_opp(a: Address, b: Address, token: Address) -> Option<Address> {
    if token == a {
        Some(b)
    } else if token == b {
        Some(a)
    } else {
        None
    }
}

/// The reserve-snapshot transition of a constant-product pool under one
/// decoded event, as its pieces are stated by the engine.
pub open spec fn spec_v2_log(p: UniswapV2Pool, log: EventLog) -> (
    UniswapV2Pool,
    Result<(), EventLogError>,
) {
    if log.topic.hi != crate::events::PAIR_SYNC_TOPIC_HI || log.topic.lo
        != crate::events::PAIR_SYNC_TOPIC_LO {
        (p, Err(EventLogError::InvalidEventSignature))
    } else if !(log.words@.len() == 2 && log.words@[0].hi == 0 && log.words@[1].hi == 0) {
        (p, Err(EventLogError::MalformedPayload))
    } else if log.block_number < p.last_synced {
        (p, Ok(()))
    } else {
        (
            UniswapV2Pool {
                reserve_0: log.words@[0].lo,
                reserve_1: log.words@[1].lo,
                last_synced: log.block_number,
                ..p
            },
            Ok(()),
        )
    }
}

/// The totals-snapshot transition of a vault under one decoded event, as
/// its pieces are stated by the engine.
pub open spec fn spec_vault_log(v: ERC4626Vault, log: EventLog) -> (
    ERC4626Vault,
    Result<(), EventLogError>,
) {
    if !v.recognizes_topic(log.topic) {
        (v, Err(EventLogError::InvalidEventSignature))
    } else if !(log.words@.len() == 2 && log.words@[0].hi == 0 && log.words@[1].hi == 0) {
        (v, Err(EventLogError::MalformedPayload))
    } else if log.block_number < v.last_synced {
        (v, Ok(()))
    } else {
        (
            ERC4626Vault {
                vault_reserve: log.words@[0].lo,
                asset_reserve: log.words@[1].lo,
                last_synced: log.block_number,
                ..v
            },
            Ok(()),
        )
    }
}

impl AMM {
    /// Runtime check of the wrapped engine's well-formedness, for callers
    /// that rebuild instances from untrusted serialized state.
    pub fn check_wf(&self) -> (r: bool)
        ensures
            r == self.wf(),
    {
        match self {
            AMM::UniswapV2Pool(p) => p.check_wf(),
            AMM::UniswapV3Pool(p) => p.check_wf(),
            AMM::ERC4626Vault(v) => v.check_wf(),
        }
    }

    /// The historical height an authoritative read should use: only
    /// concentrated-liquidity state is history-sensitive, so only that
    /// variant honors the caller's height.
    pub fn populate_height(&self, requested: Option<u64>) -> (r: Option<u64>)
        ensures
            *self matches AMM::UniswapV3Pool(p) ==> r == requested,
            !(*self matches AMM::UniswapV3Pool(p)) ==> r is None,
    {
        match self {
            AMM::UniswapV3Pool(_) => requested,
            _ => None,
        }
    }
}

/// The committing swap is the same computation as the pure projection plus
/// the commit: on every input it returns exactly the pure projection's
/// result, whichever engine is wrapped.
pub proof fn lemma_commit_matches_projection(a: AMM, token_in: Address, amount_in: u128)
    ensures
        a matches AMM::UniswapV2Pool(p) ==> p.spec_simulate_swap_mut(token_in, amount_in).1
            == p.spec_simulate_swap(token_in, amount_in),
        a matches AMM::UniswapV3Pool(p) ==> p@.spec_simulate_swap_mut(token_in, amount_in).1
            == p@.spec_simulate_swap(token_in, amount_in),
        a matches AMM::ERC4626Vault(v) ==> v.spec_simulate_swap_mut(token_in, amount_in).1
            == v.spec_simulate_swap(token_in, amount_in),
{
}

/// The derivative is defined wherever the swap simulation succeeds, and
/// only there, whichever engine is wrapped; its value is a well-formed
/// non-negative ratio.
pub proof fn lemma_gradient_defined_where_swap_succeeds(a: AMM, token_in: Address, amount: u128)
    ensures
        a matches AMM::UniswapV2Pool(p) ==> (p.spec_gradient(token_in, amount) is Ok <==>
            p.spec_simulate_swap(token_in, amount) is Ok),
        a matches AMM::UniswapV3Pool(p) ==> (p@.spec_gradient(token_in, amount) is Ok <==>
            p@.spec_swap_full(token_in, amount) is Ok),
        a matches AMM::ERC4626Vault(v) ==> (v.spec_gradient(token_in, amount) is Ok <==>
            v.spec_simulate_swap(token_in, amount) is Ok),
{
}

impl PartialEq for AMM {
    /// Equality is by address only: two instances sharing an address are
    /// the same economic entity even with divergent in-memory state.
    fn eq(&self, other: &AMM) -> (r: bool) {
        let a = self.address();
        let b = other.address();
        a.hi == b.hi && a.lo == b.lo
    }
}

impl vstd::std_specs::cmp::PartialEqSpecImpl for AMM {
    open spec fn obeys_eq_spec() -> bool {
        true
    }

    open spec fn eq_spec(&self, other: &AMM) -> bool {
        self.spec_address() == other.spec_address()
    }
}

/// Two dispatcher instances with an identical address compare equal under
/// dispatcher equality, whatever their internal state; instances with
/// different addresses never do.
pub proof fn lemma_equality_is_address_only(a: AMM, b: AMM)
    ensures
        a.eq_spec(&b) <==> a.spec_address() == b.spec_address(),
{
}

/// Idempotent bulk re-synchronization, at the dispatcher: feeding an
/// instance's own storage export back through the storage-diff channel
/// reproduces an equal export, whichever engine is wrapped, and the export
/// always counts as recognized.
pub proof fn lemma_storage_sync_round_trip(a: AMM)
    requires
        a.wf(),
    ensures
        a matches AMM::UniswapV2Pool(p) ==> p.spec_apply_storage(
            p.spec_reserves(),
        ).spec_reserves() =~= p.spec_reserves() && seq_get(
            p.spec_reserves(),
            PAIR_RESERVES_SLOT,
        ) is Some,
        a matches AMM::UniswapV3Pool(p) ==> p@.spec_apply_entries(
            p@.spec_reserves(),
            p@.spec_reserves().len() as int,
        ).0.spec_reserves() =~= p@.spec_reserves() && p@.spec_apply_entries(
            p@.spec_reserves(),
            p@.spec_reserves().len() as int,
        ).1,
        a matches AMM::ERC4626Vault(v) ==> v.spec_apply_storage(
            v.spec_reserves(),
        ).spec_reserves() =~= v.spec_reserves() && seq_get(
            v.spec_reserves(),
            VAULT_TOTALS_SLOT,
        ) is Some,
{
    match a {
        AMM::UniswapV2Pool(p) => crate::uniswap_v2::lemma_storage_sync_round_trip(p),
        AMM::UniswapV3Pool(p) => crate::uniswap_v3::lemma_storage_sync_round_trip(p@),
        AMM::ERC4626Vault(v) => crate::erc_4626::lemma_storage_sync_round_trip(v),
    }
}

} // verus!
