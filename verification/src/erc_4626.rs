//! Vault accounting engine: share/asset conversion over a tokenized-vault
//! contract, refreshed wholesale from snapshot-shaped events.

use vstd::prelude::*;
use crate::{Address, W256};
use crate::errors::{ArithmeticError, EventLogError, SwapSimulationError};
use crate::events::{
    EventLog, VAULT_DEPOSIT_TOPIC_HI, VAULT_DEPOSIT_TOPIC_LO, VAULT_WITHDRAW_TOPIC_HI,
    VAULT_WITHDRAW_TOPIC_LO, topic,
};
use crate::math::{Ratio, WideRatio, pow10, pow10_u128, lemma_pow10_pos, lemma_w256_small, w256_of};
use crate::storage::{StorageMap, seq_get};

verus! {

/// The storage slot under which a vault keeps both packed totals.
pub const VAULT_TOTALS_SLOT: u64 = 2;

/// Assets paid out for redeeming `amount` shares (floor rounding).
pub open spec fn redeem_out_spec(vault_reserve: int, asset_reserve: int, amount: int) -> int {
    (amount * asset_reserve) / vault_reserve
}

/// Shares minted for depositing `amount` assets (floor rounding); an empty
/// vault mints one share per asset, the protocol default rate.
pub open spec fn deposit_out_spec(vault_reserve: int, asset_reserve: int, amount: int) -> int {
    if vault_reserve == 0 {
        amount
    } else {
        (amount * vault_reserve) / asset_reserve
    }
}

/// A tokenized-vault mirror: total shares against total managed assets.
#[derive(Clone, Copy, PartialEq, Eq, Structural, Debug)]
pub struct ERC4626Vault {
    pub vault_token: Address,
    pub vault_token_decimals: u8,
    pub asset_token: Address,
    pub asset_token_decimals: u8,
    /// Total shares outstanding.
    pub vault_reserve: u128,
    /// Total managed underlying assets.
    pub asset_reserve: u128,
    /// Watermark: the highest block height already applied.
    pub last_synced: u64,
}

impl ERC4626Vault {
    /// Tokens are distinct and the decimals keep powers of ten inside a
    /// 128-bit word.
    pub open spec fn wf(self) -> bool {
        &&& self.vault_token != self.asset_token
        &&& self.vault_token_decimals <= 38
        &&& self.asset_token_decimals <= 38
    }

    /// A swap sends shares in for assets (a redeem) exactly when the input
    /// token is the vault token; everything else is a deposit.
    pub open spec fn is_redeem(self, token_in: Address) -> bool {
        token_in == self.vault_token
    }

    /// The projected output of an exact-input conversion.
    pub open spec fn swap_out_spec(self, token_in: Address, amount_in: int) -> int {
        if self.is_redeem(token_in) {
            redeem_out_spec(self.vault_reserve as int, self.asset_reserve as int, amount_in)
        } else {
            deposit_out_spec(self.vault_reserve as int, self.asset_reserve as int, amount_in)
        }
    }

    /// The conversion is answerable: its denominator reserve is funded
    /// (an empty vault still prices deposits at the default rate).
    pub open spec fn swap_funded(self, token_in: Address) -> bool {
        if self.is_redeem(token_in) {
            self.vault_reserve > 0
        } else {
            self.vault_reserve == 0 || self.asset_reserve > 0
        }
    }

    /// The conversion and its commit stay inside the working integer width:
    /// the intermediate product fits, a redeem burns no more shares than
    /// exist, and the committed totals fit.
    pub open spec fn swap_fits(self, token_in: Address, amount_in: int) -> bool {
        if self.is_redeem(token_in) {
            &&& amount_in * self.asset_reserve <= u128::MAX
            &&& amount_in <= self.vault_reserve
        } else if self.vault_reserve == 0 {
            self.asset_reserve + amount_in <= u128::MAX
        } else {
            &&& amount_in * self.vault_reserve <= u128::MAX
            &&& self.asset_reserve + amount_in <= u128::MAX
            &&& self.vault_reserve + deposit_out_spec(
                self.vault_reserve as int,
                self.asset_reserve as int,
                amount_in,
            ) <= u128::MAX
        }
    }

    /// The projected conversion result: the error owed on each rejected
    /// input, or the floored output amount.
    pub open spec fn spec_simulate_swap(self, token_in: Address, amount_in: u128) -> Result<
        u128,
        SwapSimulationError,
    > {
        if !self.swap_funded(token_in) {
            Err(SwapSimulationError::ZeroLiquidity)
        } else if !self.swap_fits(token_in, amount_in as int) {
            Err(SwapSimulationError::AmountOutOfRange)
        } else {
            Ok(self.swap_out_spec(token_in, amount_in as int) as u128)
        }
    }

    /// The committed conversion: the post-swap vault and the projected
    /// result. The committing swap succeeds exactly where the pure one does
    /// and returns the same result; the fit of the committed totals is part
    /// of the shared success domain.
    pub open spec fn spec_simulate_swap_mut(self, token_in: Address, amount_in: u128) -> (
        ERC4626Vault,
        Result<u128, SwapSimulationError>,
    ) {
        match self.spec_simulate_swap(token_in, amount_in) {
            Err(e) => (self, Err(e)),
            Ok(out) => if self.is_redeem(token_in) {
                (
                    ERC4626Vault {
                        vault_reserve: (self.vault_reserve - amount_in) as u128,
                        asset_reserve: (self.asset_reserve - out) as u128,
                        ..self
                    },
                    Ok(out),
                )
            } else {
                (
                    ERC4626Vault {
                        vault_reserve: (self.vault_reserve + out) as u128,
                        asset_reserve: (self.asset_reserve + amount_in) as u128,
                        ..self
                    },
                    Ok(out),
                )
            },
        }
    }

    /// The projected derivative: conversions are linear, so the bare
    /// reserve ratio, or the protocol default rate for an empty vault.
    /// Defined on exactly the inputs on which the swap simulation is,
    /// with the same error otherwise.
    pub open spec fn spec_gradient(self, token_in: Address, amount_in: u128) -> Result<
        WideRatio,
        SwapSimulationError,
    > {
        match self.spec_simulate_swap(token_in, amount_in) {
            Err(e) => Err(e),
            Ok(out) => if self.is_redeem(token_in) {
                Ok(
                    WideRatio {
                        num: w256_of(self.asset_reserve as int),
                        den: w256_of(self.vault_reserve as int),
                    },
                )
            } else if self.vault_reserve == 0 {
                Ok(WideRatio { num: w256_of(1), den: w256_of(1) })
            } else {
                Ok(
                    WideRatio {
                        num: w256_of(self.vault_reserve as int),
                        den: w256_of(self.asset_reserve as int),
                    },
                )
            },
        }
    }

    /// The projected price: the published rate normalized by decimals, the
    /// default rate for an empty vault, or the error owed.
    pub open spec fn spec_calculate_price(self, base_token: Address) -> Result<
        Ratio,
        ArithmeticError,
    > {
        let pv = pow10(self.vault_token_decimals as nat);
        let pa = pow10(self.asset_token_decimals as nat);
        if self.vault_reserve == 0 {
            Ok(Ratio { num: 1, den: 1 })
        } else if base_token == self.asset_token {
            if self.asset_reserve == 0 {
                Err(ArithmeticError::ZeroDenominator)
            } else if self.vault_reserve * pa <= u128::MAX && self.asset_reserve * pv
                <= u128::MAX {
                Ok(
                    Ratio {
                        num: (self.vault_reserve * pa) as u128,
                        den: (self.asset_reserve * pv) as u128,
                    },
                )
            } else {
                Err(ArithmeticError::Overflow)
            }
        } else {
            if self.asset_reserve * pv <= u128::MAX && self.vault_reserve * pa <= u128::MAX {
                Ok(
                    Ratio {
                        num: (self.asset_reserve * pv) as u128,
                        den: (self.vault_reserve * pa) as u128,
                    },
                )
            } else {
                Err(ArithmeticError::Overflow)
            }
        }
    }

    /// The canonical storage export: one slot packing both totals.
    pub open spec fn spec_reserves(self) -> Seq<(u64, W256)> {
        seq![(VAULT_TOTALS_SLOT, W256 { hi: self.vault_reserve, lo: self.asset_reserve })]
    }

    /// The vault after applying a storage diff: the packed totals slot, when
    /// present, replaces both totals; other keys are ignored.
    pub open spec fn spec_apply_storage(self, diff: Seq<(u64, W256)>) -> ERC4626Vault {
        match seq_get(diff, VAULT_TOTALS_SLOT) {
            Some(v) => ERC4626Vault { vault_reserve: v.hi, asset_reserve: v.lo, ..self },
            None => self,
        }
    }

    /// Constructs an unhydrated vault mirror.
    pub fn new(
        vault_token: Address,
        vault_token_decimals: u8,
        asset_token: Address,
        asset_token_decimals: u8,
    ) -> (r: ERC4626Vault)
        requires
            vault_token != asset_token,
            vault_token_decimals <= 38,
            asset_token_decimals <= 38,
        ensures
            r.wf(),
            r == (ERC4626Vault {
                vault_token,
                vault_token_decimals,
                asset_token,
                asset_token_decimals,
                vault_reserve: 0,
                asset_reserve: 0,
                last_synced: 0,
            }),
    {
        ERC4626Vault {
            vault_token,
            vault_token_decimals,
            asset_token,
            asset_token_decimals,
            vault_reserve: 0,
            asset_reserve: 0,
            last_synced: 0,
        }
    }

    /// Runtime check of the vault's well-formedness, for callers that
    /// rebuild instances from untrusted serialized state.
    pub fn check_wf(&self) -> (r: bool)
        ensures
            r == self.wf(),
    {
        !(self.vault_token == self.asset_token) && self.vault_token_decimals <= 38
            && self.asset_token_decimals <= 38
    }

    /// Stable identity of the vault: its share-token address.
    pub fn address(&self) -> (r: Address)
        ensures
            r == self.vault_token,
    {
        self.vault_token
    }

    /// The fixed two-token set of the vault.
    pub fn tokens(&self) -> (r: Vec<Address>)
        ensures
            r@ =~= seq![self.vault_token, self.asset_token],
    {
        let mut v: Vec<Address> = Vec::new();
        v.push(self.vault_token);
        v.push(self.asset_token);
        v
    }

    /// The counterpart of `token_in`; the vault token when `token_in` is not
    /// a member.
    pub fn get_token_out(&self, token_in: Address) -> (r: Address)
        ensures
            r == (if token_in == self.vault_token {
                self.asset_token
            } else {
                self.vault_token
            }),
    {
        if token_in == self.vault_token {
            self.asset_token
        } else {
            self.vault_token
        }
    }

    /// The counterpart of `token`, or nothing when `token` is not a member.
    pub fn opp_token(&self, token: Address) -> (r: Option<Address>)
        ensures
            token == self.vault_token ==> r == Some(self.asset_token),
            token == self.asset_token && token != self.vault_token ==> r == Some(self.vault_token),
            token != self.vault_token && token != self.asset_token ==> r is None,
    {
        if token == self.vault_token {
            Some(self.asset_token)
        } else if token == self.asset_token {
            Some(self.vault_token)
        } else {
            None
        }
    }

    /// The topics this vault needs subscribed: deposit and withdraw.
    pub fn sync_on_event_signatures(&self) -> (r: Vec<W256>)
        ensures
            r@ =~= seq![
                W256 { hi: VAULT_DEPOSIT_TOPIC_HI, lo: VAULT_DEPOSIT_TOPIC_LO },
                W256 { hi: VAULT_WITHDRAW_TOPIC_HI, lo: VAULT_WITHDRAW_TOPIC_LO },
            ],
    {
        let mut v: Vec<W256> = Vec::new();
        v.push(topic(VAULT_DEPOSIT_TOPIC_HI, VAULT_DEPOSIT_TOPIC_LO));
        v.push(topic(VAULT_WITHDRAW_TOPIC_HI, VAULT_WITHDRAW_TOPIC_LO));
        v
    }

    /// Exports canonical state as ordered storage-slot pairs.
    pub fn reserves(&self) -> (r: StorageMap)
        ensures
            r.wf(),
            r@ =~= self.spec_reserves(),
    {
        let mut m = StorageMap::new();
        m.append(VAULT_TOTALS_SLOT, W256 { hi: self.vault_reserve, lo: self.asset_reserve });
        m
    }

    /// Applies an authoritative totals snapshot read from the chain, unless
    /// it is older than the watermark; reports whether it was applied.
    pub fn apply_totals_snapshot(&mut self, vault_reserve: u128, asset_reserve: u128, block: u64) -> (r:
        bool)
        ensures
            block >= old(self).last_synced ==> r && *final(self) == (ERC4626Vault {
                vault_reserve,
                asset_reserve,
                last_synced: block,
                ..*old(self)
            }),
            block < old(self).last_synced ==> !r && *final(self) == *old(self),
    {
        if block < self.last_synced {
            return false;
        }
        self.vault_reserve = vault_reserve;
        self.asset_reserve = asset_reserve;
        self.last_synced = block;
        true
    }

    /// Whether the topic is one of the vault's snapshot event signatures.
    pub open spec fn recognizes_topic(self, t: W256) -> bool {
        ||| (t.hi == VAULT_DEPOSIT_TOPIC_HI && t.lo == VAULT_DEPOSIT_TOPIC_LO)
        ||| (t.hi == VAULT_WITHDRAW_TOPIC_HI && t.lo == VAULT_WITHDRAW_TOPIC_LO)
    }

    /// Decodes one event by signature and applies the carried totals
    /// snapshot; deposit- and withdraw-shaped payloads both carry the new
    /// totals wholesale, since deltas are unsafe to reconstruct.
    pub fn sync_from_log(&mut self, log: EventLog) -> (r: Result<(), EventLogError>)
        ensures
            !old(self).recognizes_topic(log.topic) ==> r == Err::<(), EventLogError>(
                EventLogError::InvalidEventSignature,
            ) && *final(self) == *old(self),
            old(self).recognizes_topic(log.topic) && !(log.words@.len() == 2 && log.words@[0].hi
                == 0 && log.words@[1].hi == 0) ==> r == Err::<(), EventLogError>(
                EventLogError::MalformedPayload,
            ) && *final(self) == *old(self),
            old(self).recognizes_topic(log.topic) && log.words@.len() == 2 && log.words@[0].hi == 0
                && log.words@[1].hi == 0 && log.block_number < old(self).last_synced ==> r == Ok::<
                (),
                EventLogError,
            >(()) && *final(self) == *old(self),
            old(self).recognizes_topic(log.topic) && log.words@.len() == 2 && log.words@[0].hi == 0
                && log.words@[1].hi == 0 && log.block_number >= old(self).last_synced ==> r == Ok::<
                (),
                EventLogError,
            >(()) && *final(self) == (ERC4626Vault {
                vault_reserve: log.words@[0].lo,
                asset_reserve: log.words@[1].lo,
                last_synced: log.block_number,
                ..*old(self)
            }),
    {
        let deposit = log.topic.hi == VAULT_DEPOSIT_TOPIC_HI && log.topic.lo
            == VAULT_DEPOSIT_TOPIC_LO;
        let withdraw = log.topic.hi == VAULT_WITHDRAW_TOPIC_HI && log.topic.lo
            == VAULT_WITHDRAW_TOPIC_LO;
        if !deposit && !withdraw {
            return Err(EventLogError::InvalidEventSignature);
        }
        if log.words.len() != 2 {
            return Err(EventLogError::MalformedPayload);
        }
        let w0 = log.words[0];
        let w1 = log.words[1];
        if w0.hi != 0 || w1.hi != 0 {
            return Err(EventLogError::MalformedPayload);
        }
        if log.block_number < self.last_synced {
            return Ok(());
        }
        self.vault_reserve = w0.lo;
        self.asset_reserve = w1.lo;
        self.last_synced = log.block_number;
        Ok(())
    }

    /// Applies the recognized key of a storage diff directly, ignoring the
    /// rest; reports presence of a recognized key, not an error.
    pub fn sync_from_storage(&mut self, diff: &StorageMap) -> (r: Option<()>)
        ensures
            *final(self) == old(self).spec_apply_storage(diff@),
            r is Some <==> seq_get(diff@, VAULT_TOTALS_SLOT) is Some,
    {
        match diff.get(VAULT_TOTALS_SLOT) {
            Some(v) => {
                self.vault_reserve = v.hi;
                self.asset_reserve = v.lo;
                Some(())
            },
            None => None,
        }
    }

    /// Projects the output of a hypothetical exact-input conversion with the
    /// vault's floor rounding.
    pub fn simulate_swap(&self, token_in: Address, amount_in: u128) -> (r: Result<
        u128,
        SwapSimulationError,
    >)
        ensures
            r is Ok <==> self.swap_funded(token_in) && self.swap_fits(token_in, amount_in as int),
            r is Ok ==> r->Ok_0 == self.swap_out_spec(token_in, amount_in as int),
            !self.swap_funded(token_in) <==> r == Err::<u128, SwapSimulationError>(
                SwapSimulationError::ZeroLiquidity,
            ),
            self.swap_funded(token_in) && !self.swap_fits(token_in, amount_in as int) <==> r
                == Err::<u128, SwapSimulationError>(SwapSimulationError::AmountOutOfRange),
            r == self.spec_simulate_swap(token_in, amount_in),
    {
        if token_in == self.vault_token {
            if self.vault_reserve == 0 {
                return Err(SwapSimulationError::ZeroLiquidity);
            }
            if amount_in > self.vault_reserve {
                return Err(SwapSimulationError::AmountOutOfRange);
            }
            let t = match amount_in.checked_mul(self.asset_reserve) {
                Some(v) => v,
                None => {
                    return Err(SwapSimulationError::AmountOutOfRange);
                },
            };
            Ok(t / self.vault_reserve)
        } else {
            if self.vault_reserve == 0 {
                if self.asset_reserve.checked_add(amount_in).is_none() {
                    return Err(SwapSimulationError::AmountOutOfRange);
                }
                return Ok(amount_in);
            }
            if self.asset_reserve == 0 {
                return Err(SwapSimulationError::ZeroLiquidity);
            }
            let t = match amount_in.checked_mul(self.vault_reserve) {
                Some(v) => v,
                None => {
                    return Err(SwapSimulationError::AmountOutOfRange);
                },
            };
            let out = t / self.asset_reserve;
            if self.asset_reserve.checked_add(amount_in).is_none() {
                return Err(SwapSimulationError::AmountOutOfRange);
            }
            if self.vault_reserve.checked_add(out).is_none() {
                return Err(SwapSimulationError::AmountOutOfRange);
            }
            Ok(out)
        }
    }

    /// Projects the same conversion and additionally commits the resulting
    /// totals: the same computation as the pure projection, succeeding on
    /// exactly the same inputs with the same result, plus the commit.
    pub fn simulate_swap_mut(&mut self, token_in: Address, amount_in: u128) -> (r: Result<
        u128,
        SwapSimulationError,
    >)
        ensures
            r == old(self).spec_simulate_swap(token_in, amount_in),
            r is Err ==> *final(self) == *old(self),
            (*final(self), r) == old(self).spec_simulate_swap_mut(token_in, amount_in),
    {
        let out = match self.simulate_swap(token_in, amount_in) {
            Ok(v) => v,
            Err(e) => {
                return Err(e);
            },
        };
        if token_in == self.vault_token {
            proof {
                lemma_redeem_out_le_assets(
                    self.vault_reserve as int,
                    self.asset_reserve as int,
                    amount_in as int,
                );
            }
            self.vault_reserve = self.vault_reserve - amount_in;
            self.asset_reserve = self.asset_reserve - out;
            Ok(out)
        } else {
            self.asset_reserve = self.asset_reserve + amount_in;
            self.vault_reserve = self.vault_reserve + out;
            Ok(out)
        }
    }

    /// The published conversion rate of the counterpart token per unit of
    /// `base_token`, normalized by both tokens' decimals; an empty vault
    /// reports the protocol default rate of one.
    pub fn calculate_price(&self, base_token: Address) -> (r: Result<Ratio, ArithmeticError>)
        requires
            self.wf(),
        ensures
            self.vault_reserve == 0 ==> r == Ok::<Ratio, ArithmeticError>(Ratio { num: 1, den: 1 }),
            self.vault_reserve > 0 && base_token != self.asset_token && self.asset_reserve * pow10(
                self.vault_token_decimals as nat,
            ) <= u128::MAX && self.vault_reserve * pow10(self.asset_token_decimals as nat)
                <= u128::MAX ==> r == Ok::<Ratio, ArithmeticError>(
                Ratio {
                    num: (self.asset_reserve * pow10(self.vault_token_decimals as nat)) as u128,
                    den: (self.vault_reserve * pow10(self.asset_token_decimals as nat)) as u128,
                },
            ),
            self.vault_reserve > 0 && base_token == self.asset_token && self.asset_reserve == 0 ==>
                r == Err::<Ratio, ArithmeticError>(ArithmeticError::ZeroDenominator),
            self.vault_reserve > 0 && base_token == self.asset_token && self.asset_reserve > 0
                && self.vault_reserve * pow10(self.asset_token_decimals as nat) <= u128::MAX
                && self.asset_reserve * pow10(self.vault_token_decimals as nat) <= u128::MAX ==> r
                == Ok::<Ratio, ArithmeticError>(
                Ratio {
                    num: (self.vault_reserve * pow10(self.asset_token_decimals as nat)) as u128,
                    den: (self.asset_reserve * pow10(self.vault_token_decimals as nat)) as u128,
                },
            ),
            r is Ok ==> r->Ok_0.wf(),
            r == self.spec_calculate_price(base_token),
    {
        if self.vault_reserve == 0 {
            return Ok(Ratio { num: 1, den: 1 });
        }
        let pv = pow10_u128(self.vault_token_decimals);
        let pa = pow10_u128(self.asset_token_decimals);
        if base_token == self.asset_token {
            if self.asset_reserve == 0 {
                return Err(ArithmeticError::ZeroDenominator);
            }
            let num = match self.vault_reserve.checked_mul(pa) {
                Some(v) => v,
                None => {
                    return Err(ArithmeticError::Overflow);
                },
            };
            let den = match self.asset_reserve.checked_mul(pv) {
                Some(v) => v,
                None => {
                    return Err(ArithmeticError::Overflow);
                },
            };
            proof {
                lemma_pow10_pos(self.vault_token_decimals as nat);
                assert(self.asset_reserve as int * pow10(self.vault_token_decimals as nat) >= 1)
                    by (nonlinear_arith)
                    requires
                        self.asset_reserve as int >= 1,
                        pow10(self.vault_token_decimals as nat) >= 1,
                ;
            }
            Ok(Ratio { num, den })
        } else {
            let num = match self.asset_reserve.checked_mul(pv) {
                Some(v) => v,
                None => {
                    return Err(ArithmeticError::Overflow);
                },
            };
            let den = match self.vault_reserve.checked_mul(pa) {
                Some(v) => v,
                None => {
                    return Err(ArithmeticError::Overflow);
                },
            };
            proof {
                lemma_pow10_pos(self.asset_token_decimals as nat);
                assert(self.vault_reserve as int * pow10(self.asset_token_decimals as nat) >= 1)
                    by (nonlinear_arith)
                    requires
                        self.vault_reserve as int >= 1,
                        pow10(self.asset_token_decimals as nat) >= 1,
                ;
            }
            Ok(Ratio { num, den })
        }
    }

    /// Local derivative of the conversion output with respect to the input:
    /// conversions are linear, so it is the bare reserve ratio. Succeeds on
    /// exactly the inputs on which the swap simulation does, and fails with
    /// the same error otherwise.
    pub fn gradient(&self, token_in: Address, amount: u128) -> (r: Result<
        WideRatio,
        SwapSimulationError,
    >)
        ensures
            r == self.spec_gradient(token_in, amount),
            r is Ok <==> self.spec_simulate_swap(token_in, amount) is Ok,
            r matches Ok(g) ==> g.wf(),
    {
        match self.simulate_swap(token_in, amount) {
            Err(e) => Err(e),
            Ok(_) => {
                proof {
                    lemma_w256_small(self.asset_reserve);
                    lemma_w256_small(self.vault_reserve);
                    lemma_w256_small(1);
                }
                if token_in == self.vault_token {
                    Ok(
                        WideRatio {
                            num: W256 { hi: 0, lo: self.asset_reserve },
                            den: W256 { hi: 0, lo: self.vault_reserve },
                        },
                    )
                } else if self.vault_reserve == 0 {
                    Ok(WideRatio { num: W256 { hi: 0, lo: 1 }, den: W256 { hi: 0, lo: 1 } })
                } else {
                    Ok(
                        WideRatio {
                            num: W256 { hi: 0, lo: self.vault_reserve },
                            den: W256 { hi: 0, lo: self.asset_reserve },
                        },
                    )
                }
            },
        }
    }
}

/// Redeeming no more shares than exist never pays out more assets than the
/// vault manages.
pub proof fn lemma_redeem_out_le_assets(vault_reserve: int, asset_reserve: int, amount: int)
    requires
        vault_reserve > 0,
        asset_reserve >= 0,
        0 <= amount <= vault_reserve,
        amount * asset_reserve <= u128::MAX,
    ensures
        0 <= redeem_out_spec(vault_reserve, asset_reserve, amount) <= asset_reserve,
{
    let n = amount * asset_reserve;
    let q = n / vault_reserve;
    vstd::arithmetic::div_mod::lemma_fundamental_div_mod(n, vault_reserve);
    vstd::arithmetic::div_mod::lemma_mod_bound(n, vault_reserve);
    assert(n >= 0) by (nonlinear_arith)
        requires
            amount >= 0,
            asset_reserve >= 0,
            n == amount * asset_reserve,
    ;
    assert(q >= 0) by (nonlinear_arith)
        requires
            vault_reserve * q + n % vault_reserve == n,
            n >= 0,
            0 <= n % vault_reserve < vault_reserve,
            vault_reserve > 0,
    ;
    assert(q <= asset_reserve) by (nonlinear_arith)
        requires
            vault_reserve * q <= n,
            n == amount * asset_reserve,
            amount <= vault_reserve,
            asset_reserve >= 0,
            vault_reserve > 0,
            q >= 0,
    ;
}

/// Idempotent bulk re-synchronization: feeding a vault's own storage export
/// back through the storage-diff channel reproduces an equal export.
pub proof fn lemma_storage_sync_round_trip(v: ERC4626Vault)
    ensures
        v.spec_apply_storage(v.spec_reserves()).spec_reserves() =~= v.spec_reserves(),
        seq_get(v.spec_reserves(), VAULT_TOTALS_SLOT) is Some,
{
    let d = v.spec_reserves();
    assert(seq_get(d, VAULT_TOTALS_SLOT) == Some(
        W256 { hi: v.vault_reserve, lo: v.asset_reserve },
    ));
}

} // verus!
