//! Constant-product engine: a two-token pool under a multiplicative
//! invariant, with exact integer swap arithmetic matching on-chain rounding.

use vstd::prelude::*;
use vstd::arithmetic::div_mod::{lemma_fundamental_div_mod, lemma_mod_bound};
use crate::{Address, W256};
use crate::errors::{ArithmeticError, EventLogError, SwapSimulationError};
use crate::events::{EventLog, PAIR_SYNC_TOPIC_HI, PAIR_SYNC_TOPIC_LO, topic};
use crate::math::{Ratio, WideRatio, mul_u128, pow10, pow10_u128, lemma_pow10_pos, lemma_w256_of_val, lemma_w256_small, w256_of, w256_val};
use crate::storage::{StorageMap, seq_get};

verus! {

/// Fee denominator: fees are parts per ten thousand of the input.
pub const FEE_SCALE: u32 = 10000;

/// The storage slot under which a pair keeps both packed reserves.
pub const PAIR_RESERVES_SLOT: u64 = 8;

/// Floor of the constant-product output amount:
/// `in·(S−fee)·r_out / (r_in·S + in·(S−fee))` with `S` the fee scale.
pub open spec fn amount_out_spec(reserve_in: int, reserve_out: int, fee: int, amount_in: int) -> int {
    (amount_in * (10000 - fee) * reserve_out) / (reserve_in * 10000 + amount_in * (10000 - fee))
}

/// Every intermediate product of the output formula fits a 128-bit word.
pub open spec fn amount_out_fits(reserve_in: int, reserve_out: int, fee: int, amount_in: int) -> bool {
    let ailf = amount_in * (10000 - fee);
    &&& ailf <= u128::MAX
    &&& ailf * reserve_out <= u128::MAX
    &&& reserve_in * 10000 + ailf <= u128::MAX
}

/// Numerator of the exact output derivative with respect to the input.
pub open spec fn gradient_num(reserve_in: int, reserve_out: int, fee: int) -> int {
    (10000 - fee) * reserve_out * reserve_in * 10000
}

/// Denominator of the exact output derivative with respect to the input.
pub open spec fn gradient_den(reserve_in: int, fee: int, amount: int) -> int {
    (reserve_in * 10000 + (10000 - fee) * amount) * (reserve_in * 10000 + (10000 - fee) * amount)
}

/// A constant-product two-token pool mirror.
#[derive(Clone, Copy, PartialEq, Eq, Structural, Debug)]
pub struct UniswapV2Pool {
    pub address: Address,
    pub token_a: Address,
    pub token_b: Address,
    pub token_a_decimals: u8,
    pub token_b_decimals: u8,
    pub reserve_0: u128,
    pub reserve_1: u128,
    /// Swap fee in parts per `FEE_SCALE` of the input.
    pub fee: u32,
    /// Watermark: the highest block height already applied.
    pub last_synced: u64,
}

impl UniswapV2Pool {
    /// Tokens are distinct and ordered, the fee is a proper fraction, and
    /// the token decimals keep powers of ten inside a 128-bit word.
    pub open spec fn wf(self) -> bool {
        &&& self.fee < 10000
        &&& self.token_a.spec_lt(self.token_b)
        &&& self.token_a_decimals <= 38
        &&& self.token_b_decimals <= 38
    }

    /// The reserve of the given token (`token_a` selects `reserve_0`).
    pub open spec fn reserve_in(self, token_in: Address) -> int {
        if token_in == self.token_a {
            self.reserve_0 as int
        } else {
            self.reserve_1 as int
        }
    }

    /// The reserve of the counterpart token.
    pub open spec fn reserve_out(self, token_in: Address) -> int {
        if token_in == self.token_a {
            self.reserve_1 as int
        } else {
            self.reserve_0 as int
        }
    }

    /// The decimals of the given token.
    pub open spec fn decimals_of(self, token: Address) -> nat {
        if token == self.token_a {
            self.token_a_decimals as nat
        } else {
            self.token_b_decimals as nat
        }
    }

    /// The decimals of the counterpart token.
    pub open spec fn decimals_of_other(self, token: Address) -> nat {
        if token == self.token_a {
            self.token_b_decimals as nat
        } else {
            self.token_a_decimals as nat
        }
    }

    /// A swap of `amount_in` succeeds: both reserves are funded and the
    /// formula stays inside the working integer width.
    pub open spec fn swap_ok(self, token_in: Address, amount_in: int) -> bool {
        &&& self.reserve_in(token_in) > 0
        &&& self.reserve_out(token_in) > 0
        &&& amount_out_fits(
            self.reserve_in(token_in),
            self.reserve_out(token_in),
            self.fee as int,
            amount_in,
        )
    }

    /// The projected swap result: the error owed on each rejected input,
    /// or the floored output amount.
    pub open spec fn spec_simulate_swap(self, token_in: Address, amount_in: u128) -> Result<
        u128,
        SwapSimulationError,
    > {
        let rin = self.reserve_in(token_in);
        let rout = self.reserve_out(token_in);
        if rin == 0 || rout == 0 {
            Err(SwapSimulationError::ZeroLiquidity)
        } else if !amount_out_fits(rin, rout, self.fee as int, amount_in as int) {
            Err(SwapSimulationError::AmountOutOfRange)
        } else {
            Ok(amount_out_spec(rin, rout, self.fee as int, amount_in as int) as u128)
        }
    }

    /// The committed swap: the post-swap pool and the projected result.
    /// The committing swap succeeds exactly where the pure one does and
    /// returns the same result: the fit conditions of the pure swap already
    /// cover the grown incoming reserve.
    pub open spec fn spec_simulate_swap_mut(self, token_in: Address, amount_in: u128) -> (
        UniswapV2Pool,
        Result<u128, SwapSimulationError>,
    ) {
        match self.spec_simulate_swap(token_in, amount_in) {
            Err(e) => (self, Err(e)),
            Ok(out) => (self.spec_after_swap(token_in, amount_in as int), Ok(out)),
        }
    }

    /// The projected derivative as an exact wide ratio, defined on exactly
    /// the inputs on which the swap simulation is, with the same error
    /// otherwise. At amount zero the equivalent reduced fraction is
    /// reported, so the value always fits the wide words.
    pub open spec fn spec_gradient(self, token_in: Address, amount: u128) -> Result<
        WideRatio,
        SwapSimulationError,
    > {
        match self.spec_simulate_swap(token_in, amount) {
            Err(e) => Err(e),
            Ok(out) => {
                let rin = self.reserve_in(token_in);
                let rout = self.reserve_out(token_in);
                if amount == 0 {
                    Ok(
                        WideRatio {
                            num: w256_of((10000 - self.fee) * rout),
                            den: w256_of(rin * 10000),
                        },
                    )
                } else {
                    Ok(
                        WideRatio {
                            num: w256_of(gradient_num(rin, rout, self.fee as int)),
                            den: w256_of(gradient_den(rin, self.fee as int, amount as int)),
                        },
                    )
                }
            },
        }
    }

    /// The projected price: the error owed on each rejected input, or the
    /// exact decimal-normalized ratio.
    pub open spec fn spec_calculate_price(self, base_token: Address) -> Result<
        Ratio,
        ArithmeticError,
    > {
        let rb = self.reserve_in(base_token);
        let rq = self.reserve_out(base_token);
        let num = rq * pow10(self.decimals_of(base_token));
        let den = rb * pow10(self.decimals_of_other(base_token));
        if rb == 0 {
            Err(ArithmeticError::ZeroDenominator)
        } else if num <= u128::MAX && den <= u128::MAX {
            Ok(Ratio { num: num as u128, den: den as u128 })
        } else {
            Err(ArithmeticError::Overflow)
        }
    }

    /// The pool after committing a swap of `amount_in` of `token_in`.
    pub open spec fn spec_after_swap(self, token_in: Address, amount_in: int) -> UniswapV2Pool {
        let out = amount_out_spec(
            self.reserve_in(token_in),
            self.reserve_out(token_in),
            self.fee as int,
            amount_in,
        );
        if token_in == self.token_a {
            UniswapV2Pool {
                reserve_0: (self.reserve_0 + amount_in) as u128,
                reserve_1: (self.reserve_1 - out) as u128,
                ..self
            }
        } else {
            UniswapV2Pool {
                reserve_0: (self.reserve_0 - out) as u128,
                reserve_1: (self.reserve_1 + amount_in) as u128,
                ..self
            }
        }
    }

    /// The canonical storage export: one slot packing both reserves.
    pub open spec fn spec_reserves(self) -> Seq<(u64, W256)> {
        seq![(PAIR_RESERVES_SLOT, W256 { hi: self.reserve_0, lo: self.reserve_1 })]
    }

    /// The pool after applying a storage diff: the packed reserve slot, when
    /// present, replaces both reserves; other keys are ignored.
    pub open spec fn spec_apply_storage(self, diff: Seq<(u64, W256)>) -> UniswapV2Pool {
        match seq_get(diff, PAIR_RESERVES_SLOT) {
            Some(v) => UniswapV2Pool { reserve_0: v.hi, reserve_1: v.lo, ..self },
            None => self,
        }
    }

    /// Constructs an unhydrated pool mirror.
    pub fn new(
        address: Address,
        token_a: Address,
        token_b: Address,
        token_a_decimals: u8,
        token_b_decimals: u8,
        fee: u32,
    ) -> (r: UniswapV2Pool)
        requires
            fee < 10000,
            token_a.spec_lt(token_b),
            token_a_decimals <= 38,
            token_b_decimals <= 38,
        ensures
            r.wf(),
            r == (UniswapV2Pool {
                address,
                token_a,
                token_b,
                token_a_decimals,
                token_b_decimals,
                reserve_0: 0,
                reserve_1: 0,
                fee,
                last_synced: 0,
            }),
    {
        UniswapV2Pool {
            address,
            token_a,
            token_b,
            token_a_decimals,
            token_b_decimals,
            reserve_0: 0,
            reserve_1: 0,
            fee,
            last_synced: 0,
        }
    }

    /// Runtime check of the pool's well-formedness, for callers that
    /// rebuild instances from untrusted serialized state.
    pub fn check_wf(&self) -> (r: bool)
        ensures
            r == self.wf(),
    {
        self.fee < 10000 && self.token_a.lt(&self.token_b) && self.token_a_decimals <= 38
            && self.token_b_decimals <= 38
    }

    /// Stable identity of the pool.
    pub fn address(&self) -> (r: Address)
        ensures
            r == self.address,
    {
        self.address
    }

    /// The fixed two-token set of the pool.
    pub fn tokens(&self) -> (r: Vec<Address>)
        ensures
            r@ =~= seq![self.token_a, self.token_b],
    {
        let mut v: Vec<Address> = Vec::new();
        v.push(self.token_a);
        v.push(self.token_b);
        v
    }

    /// The counterpart of `token_in`; `token_a` when `token_in` is not a
    /// member of the pool.
    pub fn get_token_out(&self, token_in: Address) -> (r: Address)
        ensures
            r == (if token_in == self.token_a {
                self.token_b
            } else {
                self.token_a
            }),
    {
        if token_in == self.token_a {
            self.token_b
        } else {
            self.token_a
        }
    }

    /// The counterpart of `token`, or nothing when `token` is not a member.
    pub fn opp_token(&self, token: Address) -> (r: Option<Address>)
        ensures
            token == self.token_a ==> r == Some(self.token_b),
            token == self.token_b && token != self.token_a ==> r == Some(self.token_a),
            token != self.token_a && token != self.token_b ==> r is None,
    {
        if token == self.token_a {
            Some(self.token_b)
        } else if token == self.token_b {
            Some(self.token_a)
        } else {
            None
        }
    }

    /// The topics this pool needs subscribed: the reserve-snapshot event.
    pub fn sync_on_event_signatures(&self) -> (r: Vec<W256>)
        ensures
            r@ =~= seq![W256 { hi: PAIR_SYNC_TOPIC_HI, lo: PAIR_SYNC_TOPIC_LO }],
    {
        let mut v: Vec<W256> = Vec::new();
        v.push(topic(PAIR_SYNC_TOPIC_HI, PAIR_SYNC_TOPIC_LO));
        v
    }

    /// Exports canonical state as ordered storage-slot pairs.
    pub fn reserves(&self) -> (r: StorageMap)
        ensures
            r.wf(),
            r@ =~= self.spec_reserves(),
    {
        let mut m = StorageMap::new();
        m.append(PAIR_RESERVES_SLOT, W256 { hi: self.reserve_0, lo: self.reserve_1 });
        m
    }

    /// Applies an authoritative reserve snapshot read from the chain, unless
    /// it is older than the watermark; reports whether it was applied.
    pub fn apply_reserve_snapshot(&mut self, reserve_0: u128, reserve_1: u128, block: u64) -> (r:
        bool)
        ensures
            block >= old(self).last_synced ==> r && *final(self) == (UniswapV2Pool {
                reserve_0,
                reserve_1,
                last_synced: block,
                ..*old(self)
            }),
            block < old(self).last_synced ==> !r && *final(self) == *old(self),
    {
        if block < self.last_synced {
            return false;
        }
        self.reserve_0 = reserve_0;
        self.reserve_1 = reserve_1;
        self.last_synced = block;
        true
    }

    /// Decodes one event by signature and applies the implied snapshot:
    /// a recognized, well-shaped, non-stale reserve snapshot replaces both
    /// reserves and advances the watermark.
    pub fn sync_from_log(&mut self, log: EventLog) -> (r: Result<(), EventLogError>)
        ensures
            (log.topic.hi != PAIR_SYNC_TOPIC_HI || log.topic.lo != PAIR_SYNC_TOPIC_LO) ==> r
                == Err::<(), EventLogError>(EventLogError::InvalidEventSignature) && *final(self)
                == *old(self),
            (log.topic.hi == PAIR_SYNC_TOPIC_HI && log.topic.lo == PAIR_SYNC_TOPIC_LO && !(
            log.words@.len() == 2 && log.words@[0].hi == 0 && log.words@[1].hi == 0)) ==> r
                == Err::<(), EventLogError>(EventLogError::MalformedPayload) && *final(self) == *old(
                self,
            ),
            (log.topic.hi == PAIR_SYNC_TOPIC_HI && log.topic.lo == PAIR_SYNC_TOPIC_LO
                && log.words@.len() == 2 && log.words@[0].hi == 0 && log.words@[1].hi == 0
                && log.block_number < old(self).last_synced) ==> r == Ok::<(), EventLogError>(())
                && *final(self) == *old(self),
            (log.topic.hi == PAIR_SYNC_TOPIC_HI && log.topic.lo == PAIR_SYNC_TOPIC_LO
                && log.words@.len() == 2 && log.words@[0].hi == 0 && log.words@[1].hi == 0
                && log.block_number >= old(self).last_synced) ==> r == Ok::<(), EventLogError>(())
                && *final(self) == (UniswapV2Pool {
                reserve_0: log.words@[0].lo,
                reserve_1: log.words@[1].lo,
                last_synced: log.block_number,
                ..*old(self)
            }),
    {
        if log.topic.hi != PAIR_SYNC_TOPIC_HI || log.topic.lo != PAIR_SYNC_TOPIC_LO {
            return Err(EventLogError::InvalidEventSignature);
        }
        if log.words.len() != 2 {
            return Err(EventLogError::MalformedPayload);
        }
        let w0 = log.words[0];
        let w1 = log.words[1];
        if w0.hi != 0 || w1.hi != 0 {
            return Err(EventLogError::MalformedPayload);
        }
        if log.block_number < self.last_synced {
            return Ok(());
        }
        self.reserve_0 = w0.lo;
        self.reserve_1 = w1.lo;
        self.last_synced = log.block_number;
        Ok(())
    }

    /// Applies the recognized key of a storage diff directly, ignoring the
    /// rest; reports presence of a recognized key, not an error.
    pub fn sync_from_storage(&mut self, diff: &StorageMap) -> (r: Option<()>)
        ensures
            *final(self) == old(self).spec_apply_storage(diff@),
            r is Some <==> seq_get(diff@, PAIR_RESERVES_SLOT) is Some,
    {
        match diff.get(PAIR_RESERVES_SLOT) {
            Some(v) => {
                self.reserve_0 = v.hi;
                self.reserve_1 = v.lo;
                Some(())
            },
            None => None,
        }
    }

    /// Projects the output of a hypothetical exact-input swap, replicating
    /// the on-chain floor rounding exactly.
    pub fn simulate_swap(&self, token_in: Address, amount_in: u128) -> (r: Result<
        u128,
        SwapSimulationError,
    >)
        requires
            self.wf(),
        ensures
            r is Ok <==> self.swap_ok(token_in, amount_in as int),
            r is Ok ==> r->Ok_0 == amount_out_spec(
                self.reserve_in(token_in),
                self.reserve_out(token_in),
                self.fee as int,
                amount_in as int,
            ),
            (self.reserve_in(token_in) == 0 || self.reserve_out(token_in) == 0) <==> r == Err::<
                u128,
                SwapSimulationError,
            >(SwapSimulationError::ZeroLiquidity),
            (self.reserve_in(token_in) > 0 && self.reserve_out(token_in) > 0 && !amount_out_fits(
                self.reserve_in(token_in),
                self.reserve_out(token_in),
                self.fee as int,
                amount_in as int,
            )) <==> r == Err::<u128, SwapSimulationError>(SwapSimulationError::AmountOutOfRange),
            r == self.spec_simulate_swap(token_in, amount_in),
    {
        let r_in = if token_in == self.token_a {
            self.reserve_0
        } else {
            self.reserve_1
        };
        let r_out = if token_in == self.token_a {
            self.reserve_1
        } else {
            self.reserve_0
        };
        if r_in == 0 || r_out == 0 {
            return Err(SwapSimulationError::ZeroLiquidity);
        }
        let k = (FEE_SCALE - self.fee) as u128;
        let ailf = match amount_in.checked_mul(k) {
            Some(v) => v,
            None => {
                return Err(SwapSimulationError::AmountOutOfRange);
            },
        };
        let num = match ailf.checked_mul(r_out) {
            Some(v) => v,
            None => {
                return Err(SwapSimulationError::AmountOutOfRange);
            },
        };
        let den_base = match r_in.checked_mul(10000) {
            Some(v) => v,
            None => {
                return Err(SwapSimulationError::AmountOutOfRange);
            },
        };
        let den = match den_base.checked_add(ailf) {
            Some(v) => v,
            None => {
                return Err(SwapSimulationError::AmountOutOfRange);
            },
        };
        Ok(num / den)
    }

    /// Projects the same swap and additionally commits the resulting
    /// reserves: the same computation as the pure projection, succeeding on
    /// exactly the same inputs with the same result, plus the commit.
    pub fn simulate_swap_mut(&mut self, token_in: Address, amount_in: u128) -> (r: Result<
        u128,
        SwapSimulationError,
    >)
        requires
            old(self).wf(),
        ensures
            final(self).wf(),
            r == old(self).spec_simulate_swap(token_in, amount_in),
            r is Err ==> *final(self) == *old(self),
            (*final(self), r) == old(self).spec_simulate_swap_mut(token_in, amount_in),
    {
        let out = match self.simulate_swap(token_in, amount_in) {
            Ok(v) => v,
            Err(e) => {
                return Err(e);
            },
        };
        proof {
            lemma_amount_out_lt_reserve_out(
                self.reserve_in(token_in),
                self.reserve_out(token_in),
                self.fee as int,
                amount_in as int,
            );
            assert(self.reserve_in(token_in) + amount_in <= self.reserve_in(token_in) * 10000
                + amount_in as int * (10000 - self.fee)) by (nonlinear_arith)
                requires
                    self.fee < 10000,
                    self.reserve_in(token_in) >= 0,
                    amount_in >= 0,
            ;
        }
        if token_in == self.token_a {
            self.reserve_0 = self.reserve_0 + amount_in;
            self.reserve_1 = self.reserve_1 - out;
        } else {
            self.reserve_1 = self.reserve_1 + amount_in;
            self.reserve_0 = self.reserve_0 - out;
        }
        Ok(out)
    }

    /// Marginal exchange rate of the counterpart token per unit of
    /// `base_token`, normalized by both tokens' decimals, as an exact ratio.
    pub fn calculate_price(&self, base_token: Address) -> (r: Result<Ratio, ArithmeticError>)
        requires
            self.wf(),
        ensures
            r is Ok <==> self.reserve_in(base_token) > 0 && self.reserve_out(base_token) * pow10(
                self.decimals_of(base_token),
            ) <= u128::MAX && self.reserve_in(base_token) * pow10(
                self.decimals_of_other(base_token),
            ) <= u128::MAX,
            r is Ok ==> r->Ok_0 == (Ratio {
                num: (self.reserve_out(base_token) * pow10(self.decimals_of(base_token))) as u128,
                den: (self.reserve_in(base_token) * pow10(
                    self.decimals_of_other(base_token),
                )) as u128,
            }) && r->Ok_0.wf(),
            self.reserve_in(base_token) == 0 <==> r == Err::<Ratio, ArithmeticError>(
                ArithmeticError::ZeroDenominator,
            ),
            r == self.spec_calculate_price(base_token),
    {
        let (r_base, r_quote, d_base, d_quote) = if base_token == self.token_a {
            (self.reserve_0, self.reserve_1, self.token_a_decimals, self.token_b_decimals)
        } else {
            (self.reserve_1, self.reserve_0, self.token_b_decimals, self.token_a_decimals)
        };
        if r_base == 0 {
            return Err(ArithmeticError::ZeroDenominator);
        }
        let pb = pow10_u128(d_base);
        let pq = pow10_u128(d_quote);
        let num = match r_quote.checked_mul(pb) {
            Some(v) => v,
            None => {
                return Err(ArithmeticError::Overflow);
            },
        };
        let den = match r_base.checked_mul(pq) {
            Some(v) => v,
            None => {
                return Err(ArithmeticError::Overflow);
            },
        };
        proof {
            lemma_pow10_pos(d_quote as nat);
            assert(r_base as int * pow10(d_quote as nat) >= 1) by (nonlinear_arith)
                requires
                    r_base as int >= 1,
                    pow10(d_quote as nat) >= 1,
            ;
        }
        Ok(Ratio { num, den })
    }

    /// Local derivative of the swap output with respect to the input at the
    /// given input amount, as an exact wide ratio. Succeeds on exactly the
    /// inputs on which the swap simulation does, and fails with the same
    /// error otherwise.
    pub fn gradient(&self, token_in: Address, amount: u128) -> (r: Result<
        WideRatio,
        SwapSimulationError,
    >)
        requires
            self.wf(),
        ensures
            r == self.spec_gradient(token_in, amount),
            r is Ok <==> self.spec_simulate_swap(token_in, amount) is Ok,
            r matches Ok(g) ==> g.wf(),
    {
        match self.simulate_swap(token_in, amount) {
            Err(e) => {
                return Err(e);
            },
            Ok(_) => {},
        };
        let r_in = if token_in == self.token_a {
            self.reserve_0
        } else {
            self.reserve_1
        };
        let r_out = if token_in == self.token_a {
            self.reserve_1
        } else {
            self.reserve_0
        };
        let k = (FEE_SCALE - self.fee) as u128;
        let b = r_in * 10000;
        if amount == 0 {
            let num = mul_u128(k, r_out);
            proof {
                lemma_w256_of_val(num);
                lemma_w256_small(b);
            }
            Ok(WideRatio { num, den: W256 { hi: 0, lo: b } })
        } else {
            proof {
                assert(k as int * r_out as int <= (amount as int * (k as int)) * (
                r_out as int)) by (nonlinear_arith)
                    requires
                        amount >= 1,
                        k >= 1,
                        r_out as int >= 0,
                ;
                assert((amount as int * (k as int)) * (r_out as int) == amount as int * (10000
                    - self.fee) * (r_out as int));
            }
            let t = k * r_out;
            let d = b + amount * k;
            let num = mul_u128(t, b);
            let den = mul_u128(d, d);
            proof {
                assert(w256_val(num) == gradient_num(
                    self.reserve_in(token_in),
                    self.reserve_out(token_in),
                    self.fee as int,
                )) by (nonlinear_arith)
                    requires
                        w256_val(num) == (k as int * r_out as int) * (b as int),
                        b as int == self.reserve_in(token_in) * 10000,
                        k as int == 10000 - self.fee,
                        r_out as int == self.reserve_out(token_in),
                        gradient_num(
                            self.reserve_in(token_in),
                            self.reserve_out(token_in),
                            self.fee as int,
                        ) == (10000 - self.fee) * self.reserve_out(token_in) * self.reserve_in(
                            token_in,
                        ) * 10000,
                ;
                assert(w256_val(den) == gradient_den(
                    self.reserve_in(token_in),
                    self.fee as int,
                    amount as int,
                )) by (nonlinear_arith)
                    requires
                        w256_val(den) == (d as int) * (d as int),
                        d as int == self.reserve_in(token_in) * 10000 + amount as int * (10000
                            - self.fee),
                        gradient_den(self.reserve_in(token_in), self.fee as int, amount as int)
                            == (self.reserve_in(token_in) * 10000 + (10000 - self.fee)
                            * amount as int) * (self.reserve_in(token_in) * 10000 + (10000
                            - self.fee) * amount as int),
                ;
                assert(w256_val(den) >= 1) by (nonlinear_arith)
                    requires
                        w256_val(den) == (d as int) * (d as int),
                        d >= 1,
                ;
                lemma_w256_of_val(num);
                lemma_w256_of_val(den);
            }
            Ok(WideRatio { num, den })
        }
    }
}

/// The floored output of a funded pool is strictly below the outgoing
/// reserve, so committing a swap never drains it.
pub proof fn lemma_amount_out_lt_reserve_out(r_in: int, r_out: int, fee: int, x: int)
    requires
        r_in > 0,
        r_out > 0,
        0 <= fee < 10000,
        x >= 0,
        amount_out_fits(r_in, r_out, fee, x),
    ensures
        amount_out_spec(r_in, r_out, fee, x) < r_out,
        amount_out_spec(r_in, r_out, fee, x) >= 0,
{
    let k = 10000 - fee;
    let ailf = x * k;
    let n = ailf * r_out;
    let d = r_in * 10000 + ailf;
    assert(ailf >= 0 && n >= 0 && d > ailf) by (nonlinear_arith)
        requires
            x >= 0,
            k > 0,
            r_out > 0,
            r_in > 0,
            ailf == x * k,
            n == ailf * r_out,
            d == r_in * 10000 + ailf,
    ;
    let q = n / d;
    lemma_fundamental_div_mod(n, d);
    lemma_mod_bound(n, d);
    assert(q >= 0) by (nonlinear_arith)
        requires
            d * q + n % d == n,
            n >= 0,
            0 <= n % d < d,
            d > 0,
    ;
    assert(d * q <= n);
    assert(q < r_out) by (nonlinear_arith)
        requires
            d * q <= n,
            n == ailf * r_out,
            d > ailf,
            ailf >= 0,
            r_out > 0,
            q >= 0,
    ;
}

/// Diminishing returns: the exact (pre-rounding) effective rate of a
/// constant-product swap strictly worsens as the input grows. Stated by
/// cross multiplication of `out(x1)/x1 > out(x2)/x2` over the exact
/// rationals `out(x) = x·k·r_out / (r_in·S + k·x)`.
pub proof fn lemma_rate_strictly_decreasing(r_in: int, r_out: int, fee: int, x1: int, x2: int)
    requires
        r_in > 0,
        r_out > 0,
        0 <= fee < 10000,
        0 < x1 < x2,
    ensures
        (x1 * (10000 - fee) * r_out) * ((r_in * 10000 + (10000 - fee) * x2) * x2) > (x2 * (10000
            - fee) * r_out) * ((r_in * 10000 + (10000 - fee) * x1) * x1),
{
    let k = 10000 - fee;
    assert((x1 * k * r_out) * ((r_in * 10000 + k * x2) * x2) > (x2 * k * r_out) * ((r_in * 10000 + k
        * x1) * x1)) by (nonlinear_arith)
        requires
            r_in > 0,
            r_out > 0,
            k > 0,
            0 < x1 < x2,
    ;
}

/// No-arbitrage round trip: swapping `x`, then swapping the proceeds back
/// through the reverse direction, never returns more than `x`.
pub proof fn lemma_round_trip_no_profit(r0: int, r1: int, fee: int, x: int)
    requires
        r0 > 0,
        r1 > 0,
        0 <= fee < 10000,
        x >= 0,
    ensures
        amount_out_spec(r1, r0, fee, amount_out_spec(r0, r1, fee, x)) <= x,
{
    let k = 10000 - fee;
    let d1 = r0 * 10000 + x * k;
    let n1 = x * k * r1;
    assert(d1 > 0 && n1 >= 0) by (nonlinear_arith)
        requires
            r0 > 0,
            r1 > 0,
            k > 0,
            x >= 0,
            d1 == r0 * 10000 + x * k,
            n1 == x * k * r1,
    ;
    let y = n1 / d1;
    lemma_fundamental_div_mod(n1, d1);
    lemma_mod_bound(n1, d1);
    assert(y >= 0 && y * d1 <= n1) by (nonlinear_arith)
        requires
            d1 * y + n1 % d1 == n1,
            n1 >= 0,
            0 <= n1 % d1 < d1,
            d1 > 0,
    ;
    let d2 = r1 * 10000 + y * k;
    let n2 = y * k * r0;
    assert(d2 > 0 && n2 >= 0) by (nonlinear_arith)
        requires
            r0 > 0,
            r1 > 0,
            k > 0,
            y >= 0,
            d2 == r1 * 10000 + y * k,
            n2 == y * k * r0,
    ;
    let z = n2 / d2;
    lemma_fundamental_div_mod(n2, d2);
    lemma_mod_bound(n2, d2);
    assert(z >= 0 && z * d2 <= n2) by (nonlinear_arith)
        requires
            d2 * z + n2 % d2 == n2,
            n2 >= 0,
            0 <= n2 % d2 < d2,
            d2 > 0,
    ;
    assert(y * r0 <= x * r1) by (nonlinear_arith)
        requires
            y * d1 <= n1,
            d1 == r0 * 10000 + x * k,
            n1 == x * k * r1,
            0 < k <= 10000,
            x >= 0,
            y >= 0,
            r0 > 0,
            r1 > 0,
    ;
    assert(z * r1 <= y * r0) by (nonlinear_arith)
        requires
            z * d2 <= n2,
            d2 == r1 * 10000 + y * k,
            n2 == y * k * r0,
            0 < k <= 10000,
            y >= 0,
            z >= 0,
            r0 > 0,
            r1 > 0,
    ;
    assert(z <= x) by (nonlinear_arith)
        requires
            z * r1 <= y * r0,
            y * r0 <= x * r1,
            r1 > 0,
    ;
    assert(amount_out_spec(r0, r1, fee, x) == y);
    assert(amount_out_spec(r1, r0, fee, y) == z);
}

/// Idempotent bulk re-synchronization: feeding a pool's own storage export
/// back through the storage-diff channel reproduces an equal export.
pub proof fn lemma_storage_sync_round_trip(p: UniswapV2Pool)
    ensures
        p.spec_apply_storage(p.spec_reserves()).spec_reserves() =~= p.spec_reserves(),
        seq_get(p.spec_reserves(), PAIR_RESERVES_SLOT) is Some,
{
    let d = p.spec_reserves();
    assert(seq_get(d, PAIR_RESERVES_SLOT) == Some(W256 { hi: p.reserve_0, lo: p.reserve_1 }));
}

/// As the input amount tends to zero the derivative tends to
/// `r_out·(S−fee) / (r_in·S)`: at zero the two rationals coincide, by cross
/// multiplication.
pub proof fn lemma_gradient_limit_at_zero(r_in: int, r_out: int, fee: int)
    requires
        r_in > 0,
        r_out > 0,
        0 <= fee < 10000,
    ensures
        gradient_num(r_in, r_out, fee) * (r_in * 10000) == (r_out * (10000 - fee)) * gradient_den(
            r_in,
            fee,
            0,
        ),
{
    let k = 10000 - fee;
    assert((k * r_out * r_in * 10000) * (r_in * 10000) == (r_out * k) * ((r_in * 10000 + k * 0) * (
    r_in * 10000 + k * 0))) by (nonlinear_arith);
}

/// The derivative is never negative where it is defined: it is reported as
/// a ratio of non-negative integers over a positive denominator.
pub proof fn lemma_gradient_nonnegative(r_in: int, r_out: int, fee: int, amount: int)
    requires
        r_in > 0,
        r_out > 0,
        0 <= fee < 10000,
        amount >= 0,
    ensures
        gradient_num(r_in, r_out, fee) >= 0,
        gradient_den(r_in, fee, amount) > 0,
{
    let k = 10000 - fee;
    let d3 = r_in * 10000 + k * amount;
    assert(k * r_out * r_in * 10000 >= 0 && d3 * d3 > 0) by (nonlinear_arith)
        requires
            r_in > 0,
            r_out > 0,
            k > 0,
            amount >= 0,
            d3 == r_in * 10000 + k * amount,
    ;
}

} // verus!
