//! Concentrated-liquidity engine: tick-indexed liquidity with an active
//! price inside a range, and a swap walk that crosses initialized ticks.
//!
//! Square-root prices are fixed point with a `2^32` scale; each known tick
//! carries its own boundary square-root price, so the walk needs no
//! exponential tick-to-price table.

use vstd::prelude::*;
use crate::{Address, W256};
use crate::errors::{ArithmeticError, EventLogError, SwapSimulationError};
use crate::events::{
    EventLog, POOL_BURN_TOPIC_HI, POOL_BURN_TOPIC_LO, POOL_MINT_TOPIC_HI, POOL_MINT_TOPIC_LO,
    POOL_SWAP_TOPIC_HI, POOL_SWAP_TOPIC_LO, topic,
};
use crate::storage::StorageMap;
use crate::math::{
    Ratio, WideRatio, ceil_div, ceil_div_u128, mul_u128, pow10, pow10_u128, lemma_pow10_pos,
    lemma_ceil_div_le, lemma_ceil_div_ge_one, lemma_ceil_div_nonneg, lemma_ceil_div_minus_one,
    lemma_div_ge, lemma_div_lt, lemma_div_nonneg, lemma_w256_of_val, lemma_w256_small, w256_of,
    w256_val,
};
use vstd::arithmetic::div_mod::{
    lemma_div_is_ordered, lemma_fundamental_div_mod_converse,
};

verus! {

/// Square-root prices are scaled by two to the thirty-second power.
pub const SQRT_SCALE: u128 = 4294967296;

/// Fee denominator: fee tiers are parts per million of the input.
pub const V3_FEE_SCALE: u32 = 1000000;

/// Exclusive upper bound on square-root prices (two to the 104th): wide
/// enough for any real pool, and it keeps the squared price, scaled by the
/// fee, inside a 256-bit word.
pub const MAX_SQRT_PRICE: u128 = 20282409603651670423947251286016;

/// The lowest tick index the protocol admits.
pub const MIN_TICK: i32 = -887272;

/// The highest tick index the protocol admits.
pub const MAX_TICK: i32 = 887272;

/// One initialized tick boundary of the sparse tick mapping.
#[derive(Clone, Copy, PartialEq, Eq, Structural, Debug)]
pub struct TickInfo {
    pub index: i32,
    /// The boundary square-root price, in `SQRT_SCALE` fixed point.
    pub sqrt_price: u128,
    /// Liquidity added when the boundary is crossed upward (withdrawn when
    /// crossed downward).
    pub liquidity_net: i128,
    pub initialized: bool,
}

/// The result of a swap walk: output paid and the post-swap range state.
#[derive(Clone, Copy, PartialEq, Eq, Structural, Debug)]
pub struct V3SwapOutcome {
    pub amount_out: u128,
    pub sqrt_price: u128,
    pub tick: i32,
    pub liquidity: u128,
    /// Position of the next boundary strictly above the post-swap tick.
    pub pos: usize,
}

/// The sparse tick list is strictly sorted by index and by boundary price,
/// prices are positive, nets are negatable, and indexes are in protocol
/// range.
pub open spec fn ticks_wf(s: Seq<TickInfo>) -> bool {
    &&& forall|i: int, j: int|
        0 <= i < j < s.len() ==> (#[trigger] s[i]).index < (#[trigger] s[j]).index
            && s[i].sqrt_price < s[j].sqrt_price
    &&& forall|i: int|
        0 <= i < s.len() ==> 1 <= (#[trigger] s[i]).sqrt_price < MAX_SQRT_PRICE
    &&& forall|i: int| 0 <= i < s.len() ==> (#[trigger] s[i]).liquidity_net > i128::MIN
    &&& forall|i: int| 0 <= i < s.len() ==> MIN_TICK <= (#[trigger] s[i]).index <= MAX_TICK
    &&& forall|i: int| 0 <= i < s.len() ==> (#[trigger] s[i]).initialized
}

/// Boundaries at or below the current tick price at or below the current
/// price, and boundaries above it at or above.
pub open spec fn ticks_consistent(s: Seq<TickInfo>, tick: i32, sq: u128) -> bool {
    forall|i: int|
        0 <= i < s.len() ==> ((#[trigger] s[i]).index <= tick ==> s[i].sqrt_price <= sq) && (
        s[i].index > tick ==> s[i].sqrt_price >= sq)
}

/// The first position at or after `i` whose boundary lies strictly above
/// `tick`, or the length when none does.
pub open spec fn first_above(s: Seq<TickInfo>, tick: i32, i: int) -> int
    decreases s.len() - i,
{
    if i < 0 || i >= s.len() {
        s.len() as int
    } else if s[i].index > tick {
        i
    } else {
        first_above(s, tick, i + 1)
    }
}

/// What the swap walk assumes of its position: everything before `pos` sits
/// at or below the current tick and price, everything from `pos` on sits
/// strictly above the tick and at or above the price.
pub open spec fn walk_pre(s: Seq<TickInfo>, pos: int, tick: i32, sq: u128) -> bool {
    &&& 0 <= pos <= s.len()
    &&& 1 <= sq < MAX_SQRT_PRICE
    &&& ticks_wf(s)
    &&& forall|i: int|
        0 <= i < pos ==> (#[trigger] s[i]).index <= tick && s[i].sqrt_price <= sq
    &&& forall|i: int|
        pos <= i < s.len() ==> (#[trigger] s[i]).index > tick && s[i].sqrt_price >= sq
}

/// The walk position split implies the plain consistency invariant.
pub proof fn lemma_walk_pre_consistent(s: Seq<TickInfo>, pos: int, tick: i32, sq: u128)
    requires
        walk_pre(s, pos, tick, sq),
    ensures
        ticks_consistent(s, tick, sq),
{
}

/// `first_above` splits the sorted tick list at the current tick.
pub proof fn lemma_first_above_props(s: Seq<TickInfo>, tick: i32, i: int)
    requires
        0 <= i <= s.len(),
        ticks_wf(s),
    ensures
        i <= first_above(s, tick, i) <= s.len(),
        forall|j: int| i <= j < first_above(s, tick, i) ==> (#[trigger] s[j]).index <= tick,
        forall|j: int|
            first_above(s, tick, i) <= j < s.len() ==> (#[trigger] s[j]).index > tick,
    decreases s.len() - i,
{
    if i < s.len() {
        if s[i].index > tick {
            assert forall|j: int| i <= j < s.len() implies (#[trigger] s[j]).index > tick by {
                if j > i {
                    assert(s[i].index < s[j].index);
                }
            }
        } else {
            lemma_first_above_props(s, tick, i + 1);
        }
    }
}

/// One step of the downward walk (token zero in, price falling): consume
/// input against the active liquidity until the lower boundary or the input
/// is exhausted, crossing the boundary when it is reached.
pub open spec fn walk_down_spec(
    s: Seq<TickInfo>,
    pos: int,
    sq: u128,
    tick: i32,
    liq: u128,
    rem: u128,
    acc: u128,
) -> Result<V3SwapOutcome, SwapSimulationError>
    decreases pos,
{
    if rem == 0 {
        Ok(
            V3SwapOutcome {
                amount_out: acc,
                sqrt_price: sq,
                tick,
                liquidity: liq,
                pos: pos as usize,
            },
        )
    } else if pos <= 0 {
        Err(SwapSimulationError::TickRangeExhausted)
    } else {
        let b = s[pos - 1];
        let t = b.sqrt_price;
        let ls = liq as int * SQRT_SCALE as int;
        let dxn = ls * (sq - t);
        let dxd = sq as int * t as int;
        if ls > u128::MAX || dxn > u128::MAX || dxd > u128::MAX {
            Err(SwapSimulationError::AmountOutOfRange)
        } else {
            let dx = ceil_div(dxn, dxd);
            if rem >= dx {
                let seg = liq as int * (sq - t);
                if seg > u128::MAX {
                    Err(SwapSimulationError::AmountOutOfRange)
                } else {
                    let out = seg / SQRT_SCALE as int;
                    if acc + out > u128::MAX {
                        Err(SwapSimulationError::AmountOutOfRange)
                    } else {
                        let net = b.liquidity_net as int;
                        if liq - net < 0 {
                            Err(SwapSimulationError::ZeroLiquidity)
                        } else if liq - net > u128::MAX {
                            Err(SwapSimulationError::AmountOutOfRange)
                        } else {
                            walk_down_spec(
                                s,
                                pos - 1,
                                t,
                                (b.index - 1) as i32,
                                (liq - net) as u128,
                                (rem - dx) as u128,
                                (acc + out) as u128,
                            )
                        }
                    }
                }
            } else {
                let n1 = ls * sq;
                let r1 = rem as int * sq;
                let d1 = ls + r1;
                if n1 > u128::MAX || r1 > u128::MAX || d1 > u128::MAX {
                    Err(SwapSimulationError::AmountOutOfRange)
                } else {
                    let nsq = ceil_div(n1, d1);
                    let seg = liq as int * (sq - nsq);
                    if seg > u128::MAX {
                        Err(SwapSimulationError::AmountOutOfRange)
                    } else {
                        let out = seg / SQRT_SCALE as int;
                        if acc + out > u128::MAX {
                            Err(SwapSimulationError::AmountOutOfRange)
                        } else {
                            Ok(
                                V3SwapOutcome {
                                    amount_out: (acc + out) as u128,
                                    sqrt_price: nsq as u128,
                                    tick,
                                    liquidity: liq,
                                    pos: pos as usize,
                                },
                            )
                        }
                    }
                }
            }
        }
    }
}

/// One step of the upward walk (token one in, price rising), the mirror of
/// the downward walk.
pub open spec fn walk_up_spec(
    s: Seq<TickInfo>,
    pos: int,
    sq: u128,
    tick: i32,
    liq: u128,
    rem: u128,
    acc: u128,
) -> Result<V3SwapOutcome, SwapSimulationError>
    decreases s.len() - pos,
{
    if rem == 0 {
        Ok(
            V3SwapOutcome {
                amount_out: acc,
                sqrt_price: sq,
                tick,
                liquidity: liq,
                pos: pos as usize,
            },
        )
    } else if pos < 0 || pos >= s.len() {
        Err(SwapSimulationError::TickRangeExhausted)
    } else {
        let b = s[pos];
        let t = b.sqrt_price;
        let dyn_ = liq as int * (t - sq);
        if dyn_ > u128::MAX {
            Err(SwapSimulationError::AmountOutOfRange)
        } else {
            let dy = ceil_div(dyn_, SQRT_SCALE as int);
            if rem >= dy {
                let ls = liq as int * SQRT_SCALE as int;
                let on = ls * (t - sq);
                let od = sq as int * t as int;
                if ls > u128::MAX || on > u128::MAX || od > u128::MAX {
                    Err(SwapSimulationError::AmountOutOfRange)
                } else {
                    let out = on / od;
                    if acc + out > u128::MAX {
                        Err(SwapSimulationError::AmountOutOfRange)
                    } else {
                        let net = b.liquidity_net as int;
                        if liq + net < 0 {
                            Err(SwapSimulationError::ZeroLiquidity)
                        } else if liq + net > u128::MAX {
                            Err(SwapSimulationError::AmountOutOfRange)
                        } else {
                            walk_up_spec(
                                s,
                                pos + 1,
                                t,
                                b.index,
                                (liq + net) as u128,
                                (rem - dy) as u128,
                                (acc + out) as u128,
                            )
                        }
                    }
                }
            } else {
                let rs = rem as int * SQRT_SCALE as int;
                if rs > u128::MAX {
                    Err(SwapSimulationError::AmountOutOfRange)
                } else {
                    let nsq = sq as int + rs / (liq as int);
                    let ls = liq as int * SQRT_SCALE as int;
                    let on = ls * (nsq - sq);
                    let od = sq as int * nsq;
                    if ls > u128::MAX || on > u128::MAX || od > u128::MAX {
                        Err(SwapSimulationError::AmountOutOfRange)
                    } else {
                        let out = on / od;
                        if acc + out > u128::MAX {
                            Err(SwapSimulationError::AmountOutOfRange)
                        } else {
                            Ok(
                                V3SwapOutcome {
                                    amount_out: (acc + out) as u128,
                                    sqrt_price: nsq as u128,
                                    tick,
                                    liquidity: liq,
                                    pos: pos as usize,
                                },
                            )
                        }
                    }
                }
            }
        }
    }
}

/// Walks downward through initialized ticks, consuming `rem` of token zero.
fn walk_down(s: &Vec<TickInfo>, pos: usize, sq: u128, tick: i32, liq: u128, rem: u128, acc: u128) -> (r:
    Result<V3SwapOutcome, SwapSimulationError>)
    requires
        walk_pre(s@, pos as int, tick, sq),
        MIN_TICK - 1 <= tick <= MAX_TICK,
    ensures
        r == walk_down_spec(s@, pos as int, sq, tick, liq, rem, acc),
        r matches Ok(o) ==> walk_pre(s@, o.pos as int, o.tick, o.sqrt_price) && MIN_TICK - 1
            <= o.tick <= MAX_TICK && o.sqrt_price <= sq,
    decreases pos,
{
    if rem == 0 {
        return Ok(
            V3SwapOutcome { amount_out: acc, sqrt_price: sq, tick, liquidity: liq, pos },
        );
    }
    if pos == 0 {
        return Err(SwapSimulationError::TickRangeExhausted);
    }
    let b = s[pos - 1];
    let t = b.sqrt_price;
    let ls = match liq.checked_mul(SQRT_SCALE) {
        Some(v) => v,
        None => {
            return Err(SwapSimulationError::AmountOutOfRange);
        },
    };
    let dxn = match ls.checked_mul(sq - t) {
        Some(v) => v,
        None => {
            return Err(SwapSimulationError::AmountOutOfRange);
        },
    };
    let dxd = match sq.checked_mul(t) {
        Some(v) => v,
        None => {
            return Err(SwapSimulationError::AmountOutOfRange);
        },
    };
    proof {
        assert(sq as int * t as int >= 1) by (nonlinear_arith)
            requires
                sq >= 1,
                t >= 1,
        ;
    }
    let dx = ceil_div_u128(dxn, dxd);
    proof {
        lemma_ceil_div_nonneg(dxn as int, dxd as int);
    }
    if rem >= dx {
        let seg = match liq.checked_mul(sq - t) {
            Some(v) => v,
            None => {
                return Err(SwapSimulationError::AmountOutOfRange);
            },
        };
        let out = seg / SQRT_SCALE;
        let acc2 = match acc.checked_add(out) {
            Some(v) => v,
            None => {
                return Err(SwapSimulationError::AmountOutOfRange);
            },
        };
        let net = b.liquidity_net;
        let liq2 = if net >= 0 {
            match liq.checked_sub(net as u128) {
                Some(v) => v,
                None => {
                    return Err(SwapSimulationError::ZeroLiquidity);
                },
            }
        } else {
            match liq.checked_add((-net) as u128) {
                Some(v) => v,
                None => {
                    return Err(SwapSimulationError::AmountOutOfRange);
                },
            }
        };
        let tick2 = b.index - 1;
        proof {
            let sv = s@;
            let p = pos as int;
            assert forall|i: int| 0 <= i < p - 1 implies (#[trigger] sv[i]).index <= tick2
                && sv[i].sqrt_price <= t by {
                assert(sv[i].index < sv[p - 1].index && sv[i].sqrt_price < sv[p - 1].sqrt_price);
            }
            assert forall|i: int| p - 1 <= i < sv.len() implies (#[trigger] sv[i]).index > tick2
                && sv[i].sqrt_price >= t by {
                if i > p - 1 {
                    assert(sv[p - 1].index < sv[i].index && sv[p - 1].sqrt_price
                        < sv[i].sqrt_price);
                }
            }
        }
        walk_down(s, pos - 1, t, tick2, liq2, rem - dx, acc2)
    } else {
        proof {
            if liq == 0 {
                assert(ls == 0);
                assert(dxn as int == 0) by (nonlinear_arith)
                    requires
                        ls as int == 0,
                        dxn as int == ls as int * (sq as int - t as int),
                ;
                lemma_fundamental_div_mod_converse(dxd as int - 1, dxd as int, 0, dxd as int - 1);
                assert(dx == 0);
            }
        }
        let n1 = match ls.checked_mul(sq) {
            Some(v) => v,
            None => {
                return Err(SwapSimulationError::AmountOutOfRange);
            },
        };
        let r1 = match rem.checked_mul(sq) {
            Some(v) => v,
            None => {
                return Err(SwapSimulationError::AmountOutOfRange);
            },
        };
        let d1 = match ls.checked_add(r1) {
            Some(v) => v,
            None => {
                return Err(SwapSimulationError::AmountOutOfRange);
            },
        };
        proof {
            assert(ls >= 1 && n1 as int >= 1) by (nonlinear_arith)
                requires
                    liq >= 1,
                    sq >= 1,
                    ls as int == liq as int * SQRT_SCALE as int,
                    n1 as int == ls as int * sq as int,
            ;
        }
        let nsq = ceil_div_u128(n1, d1);
        proof {
            assert(n1 as int <= d1 as int * sq as int) by (nonlinear_arith)
                requires
                    n1 as int == ls as int * sq as int,
                    d1 as int == ls as int + r1 as int,
                    r1 >= 0,
                    sq >= 1,
            ;
            lemma_ceil_div_le(n1 as int, d1 as int, sq as int);
            lemma_ceil_div_ge_one(n1 as int, d1 as int);
            // the new price stays at or above the boundary it did not reach
            lemma_ceil_div_minus_one(dxn as int, dxd as int);
            assert(rem as int * dxd as int <= (dx - 1) * dxd as int) by (nonlinear_arith)
                requires
                    rem as int <= dx as int - 1,
                    dxd as int >= 1,
            ;
            assert(n1 as int >= d1 as int * t as int) by (nonlinear_arith)
                requires
                    rem as int * (dxd as int) < dxn as int,
                    dxn as int == ls as int * (sq as int - t as int),
                    dxd as int == sq as int * t as int,
                    n1 as int == ls as int * sq as int,
                    d1 as int == ls as int + r1 as int,
                    r1 as int == rem as int * sq as int,
                    t >= 1,
                    sq as int >= t as int,
            ;
            lemma_div_ge(n1 as int, d1 as int, t as int);
            lemma_div_is_ordered(n1 as int, n1 as int + d1 as int - 1, d1 as int);
        }
        let seg = match liq.checked_mul(sq - nsq) {
            Some(v) => v,
            None => {
                return Err(SwapSimulationError::AmountOutOfRange);
            },
        };
        let out = seg / SQRT_SCALE;
        let acc2 = match acc.checked_add(out) {
            Some(v) => v,
            None => {
                return Err(SwapSimulationError::AmountOutOfRange);
            },
        };
        proof {
            let sv = s@;
            let p = pos as int;
            assert forall|i: int| 0 <= i < p implies (#[trigger] sv[i]).sqrt_price <= nsq by {
                if i < p - 1 {
                    assert(sv[i].sqrt_price < sv[p - 1].sqrt_price);
                }
            }
        }
        Ok(V3SwapOutcome { amount_out: acc2, sqrt_price: nsq, tick, liquidity: liq, pos })
    }
}

/// Walks upward through initialized ticks, consuming `rem` of token one.
fn walk_up(s: &Vec<TickInfo>, pos: usize, sq: u128, tick: i32, liq: u128, rem: u128, acc: u128) -> (r:
    Result<V3SwapOutcome, SwapSimulationError>)
    requires
        walk_pre(s@, pos as int, tick, sq),
        MIN_TICK - 1 <= tick <= MAX_TICK,
    ensures
        r == walk_up_spec(s@, pos as int, sq, tick, liq, rem, acc),
        r matches Ok(o) ==> walk_pre(s@, o.pos as int, o.tick, o.sqrt_price) && MIN_TICK - 1
            <= o.tick <= MAX_TICK && o.sqrt_price >= sq && o.sqrt_price < MAX_SQRT_PRICE,
    decreases s@.len() - pos,
{
    if rem == 0 {
        return Ok(
            V3SwapOutcome { amount_out: acc, sqrt_price: sq, tick, liquidity: liq, pos },
        );
    }
    if pos >= s.len() {
        return Err(SwapSimulationError::TickRangeExhausted);
    }
    let b = s[pos];
    let t = b.sqrt_price;
    let dyn_ = match liq.checked_mul(t - sq) {
        Some(v) => v,
        None => {
            return Err(SwapSimulationError::AmountOutOfRange);
        },
    };
    let dy = ceil_div_u128(dyn_, SQRT_SCALE);
    proof {
        lemma_ceil_div_nonneg(dyn_ as int, SQRT_SCALE as int);
    }
    if rem >= dy {
        let ls = match liq.checked_mul(SQRT_SCALE) {
            Some(v) => v,
            None => {
                return Err(SwapSimulationError::AmountOutOfRange);
            },
        };
        let on = match ls.checked_mul(t - sq) {
            Some(v) => v,
            None => {
                return Err(SwapSimulationError::AmountOutOfRange);
            },
        };
        let od = match sq.checked_mul(t) {
            Some(v) => v,
            None => {
                return Err(SwapSimulationError::AmountOutOfRange);
            },
        };
        proof {
            assert(sq as int * t as int >= 1) by (nonlinear_arith)
                requires
                    sq >= 1,
                    t >= 1,
            ;
            lemma_div_nonneg(on as int, od as int);
        }
        let out = on / od;
        let acc2 = match acc.checked_add(out) {
            Some(v) => v,
            None => {
                return Err(SwapSimulationError::AmountOutOfRange);
            },
        };
        let net = b.liquidity_net;
        let liq2 = if net >= 0 {
            match liq.checked_add(net as u128) {
                Some(v) => v,
                None => {
                    return Err(SwapSimulationError::AmountOutOfRange);
                },
            }
        } else {
            match liq.checked_sub((-net) as u128) {
                Some(v) => v,
                None => {
                    return Err(SwapSimulationError::ZeroLiquidity);
                },
            }
        };
        let tick2 = b.index;
        proof {
            let sv = s@;
            let p = pos as int;
            assert forall|i: int| 0 <= i < p + 1 implies (#[trigger] sv[i]).index <= tick2
                && sv[i].sqrt_price <= t by {
                if i < p {
                    assert(sv[i].index <= tick);
                    assert(sv[i].sqrt_price <= sq);
                }
            }
            assert forall|i: int| p + 1 <= i < sv.len() implies (#[trigger] sv[i]).index > tick2
                && sv[i].sqrt_price >= t by {
                assert(sv[p].index < sv[i].index && sv[p].sqrt_price < sv[i].sqrt_price);
            }
        }
        walk_up(s, pos + 1, t, tick2, liq2, rem - dy, acc2)
    } else {
        proof {
            if liq == 0 {
                assert(dyn_ == 0);
                lemma_fundamental_div_mod_converse(
                    SQRT_SCALE as int - 1,
                    SQRT_SCALE as int,
                    0,
                    SQRT_SCALE as int - 1,
                );
                assert(dy == 0);
            }
        }
        let rs = match rem.checked_mul(SQRT_SCALE) {
            Some(v) => v,
            None => {
                return Err(SwapSimulationError::AmountOutOfRange);
            },
        };
        let delta = rs / liq;
        proof {
            lemma_ceil_div_minus_one(dyn_ as int, SQRT_SCALE as int);
            assert(rs as int <= (dy - 1) * SQRT_SCALE as int) by (nonlinear_arith)
                requires
                    rem as int <= dy as int - 1,
                    rs as int == rem as int * SQRT_SCALE as int,
            ;
            lemma_div_lt(rs as int, liq as int, t as int - sq as int);
        }
        let nsq = sq + delta;
        let ls = match liq.checked_mul(SQRT_SCALE) {
            Some(v) => v,
            None => {
                return Err(SwapSimulationError::AmountOutOfRange);
            },
        };
        let on = match ls.checked_mul(nsq - sq) {
            Some(v) => v,
            None => {
                return Err(SwapSimulationError::AmountOutOfRange);
            },
        };
        let od = match sq.checked_mul(nsq) {
            Some(v) => v,
            None => {
                return Err(SwapSimulationError::AmountOutOfRange);
            },
        };
        proof {
            lemma_div_nonneg(rs as int, liq as int);
            assert(sq as int * nsq as int >= 1) by (nonlinear_arith)
                requires
                    sq >= 1,
                    nsq as int >= sq as int,
            ;
            lemma_div_nonneg(on as int, od as int);
        }
        let out = on / od;
        let acc2 = match acc.checked_add(out) {
            Some(v) => v,
            None => {
                return Err(SwapSimulationError::AmountOutOfRange);
            },
        };
        proof {
            let sv = s@;
            let p = pos as int;
            assert forall|i: int| p <= i < sv.len() implies (#[trigger] sv[i]).sqrt_price
                >= nsq by {
                if i > p {
                    assert(sv[p].sqrt_price < sv[i].sqrt_price);
                }
            }
        }
        Ok(V3SwapOutcome { amount_out: acc2, sqrt_price: nsq, tick, liquidity: liq, pos })
    }
}

/// Offset written into a stored tick word so that every admissible tick,
/// including the one just below the lowest, encodes as a non-negative word.
pub const TICK_WORD_OFFSET: u64 = 887273;

/// The storage slot packing the current square-root price and tick.
pub const SLOT0_SLOT: u64 = 0;

/// The storage slot holding the active liquidity.
pub const LIQUIDITY_SLOT: u64 = 4;

/// First storage key of the tick range.
pub const TICK_SLOT_BASE: u64 = 4096;

/// Last storage key of the tick range.
pub const TICK_SLOT_END: u64 = 4096 + 887273 + 887272;

/// Offset added to a liquidity net so it stores as an unsigned word.
pub const NET_OFFSET: u128 = 0x80000000000000000000000000000000;

/// The tick index carried by a stored tick word.
pub open spec fn spec_tick_of_word(lo: u128) -> i32 {
    (lo - TICK_WORD_OFFSET) as i32
}

/// The liquidity net carried by a stored tick value.
pub open spec fn decode_net(lo: u128) -> i128 {
    (lo - NET_OFFSET) as i128
}

/// The unsigned word storing a liquidity net.
pub open spec fn encode_net(n: i128) -> u128 {
    (n + NET_OFFSET) as u128
}

/// The storage key of a tick boundary.
pub open spec fn spec_tick_slot(index: i32) -> u64 {
    (TICK_SLOT_BASE + TICK_WORD_OFFSET + index) as u64
}

/// The position of `index` in the sorted tick list, were it present: the
/// first position whose index is at least `index`.
pub open spec fn tick_pos(s: Seq<TickInfo>, index: i32) -> int {
    first_above(s, (index - 1) as i32, 0)
}

/// Whether a boundary with exactly this index is known.
pub open spec fn has_tick(s: Seq<TickInfo>, index: i32) -> bool {
    let p = tick_pos(s, index);
    0 <= p < s.len() && s[p].index == index
}

/// The mathematical state of a concentrated-liquidity pool.
#[verifier::ext_equal]
pub struct V3View {
    pub address: Address,
    pub token_a: Address,
    pub token_b: Address,
    pub token_a_decimals: u8,
    pub token_b_decimals: u8,
    pub fee: u32,
    pub tick: i32,
    pub sqrt_price: u128,
    pub liquidity: u128,
    pub tick_spacing: u32,
    pub ticks: Seq<TickInfo>,
    pub last_synced: u64,
}

/// A concentrated-liquidity pool mirror.
#[derive(Clone, Debug)]
pub struct UniswapV3Pool {
    pub address: Address,
    pub token_a: Address,
    pub token_b: Address,
    pub token_a_decimals: u8,
    pub token_b_decimals: u8,
    /// Fee tier in parts per `V3_FEE_SCALE` of the input.
    pub fee: u32,
    /// The current tick; the price sits within its implied bounds.
    pub tick: i32,
    /// The current square-root price, in `SQRT_SCALE` fixed point.
    pub sqrt_price: u128,
    /// Liquidity active at the current tick.
    pub liquidity: u128,
    pub tick_spacing: u32,
    /// The sparse ordered tick mapping, sorted by index.
    pub ticks: Vec<TickInfo>,
    /// Watermark: the highest block height already applied.
    pub last_synced: u64,
}

impl View for UniswapV3Pool {
    type V = V3View;

    open spec fn view(&self) -> V3View {
        V3View {
            address: self.address,
            token_a: self.token_a,
            token_b: self.token_b,
            token_a_decimals: self.token_a_decimals,
            token_b_decimals: self.token_b_decimals,
            fee: self.fee,
            tick: self.tick,
            sqrt_price: self.sqrt_price,
            liquidity: self.liquidity,
            tick_spacing: self.tick_spacing,
            ticks: self.ticks@,
            last_synced: self.last_synced,
        }
    }
}

impl V3View {
    /// Tokens are ordered, the fee is a proper fraction, the price is
    /// positive and within the bounds implied by the current tick, and the
    /// tick list is well formed.
    pub open spec fn wf(self) -> bool {
        &&& self.fee < 1000000
        &&& self.token_a.spec_lt(self.token_b)
        &&& self.token_a_decimals <= 38
        &&& self.token_b_decimals <= 38
        &&& 1 <= self.sqrt_price < MAX_SQRT_PRICE
        &&& MIN_TICK - 1 <= self.tick <= MAX_TICK
        &&& ticks_wf(self.ticks)
        &&& ticks_consistent(self.ticks, self.tick, self.sqrt_price)
    }

    /// A boundary with these parameters can be accepted without breaking
    /// the tick-list invariants: admissible values, order against every
    /// other boundary, order against the current price, and either it
    /// replaces a known tick or it lies above the whole list.
    pub open spec fn can_place(self, index: i32, sqrt_price: u128, net: i128) -> bool {
        &&& MIN_TICK <= index <= MAX_TICK
        &&& 1 <= sqrt_price < MAX_SQRT_PRICE
        &&& net > i128::MIN
        &&& forall|i: int|
            0 <= i < self.ticks.len() ==> (((#[trigger] self.ticks[i]).index < index
                ==> self.ticks[i].sqrt_price < sqrt_price) && (self.ticks[i].index > index
                ==> self.ticks[i].sqrt_price > sqrt_price))
        &&& (index <= self.tick ==> sqrt_price <= self.sqrt_price)
        &&& (index > self.tick ==> sqrt_price >= self.sqrt_price)
        &&& (has_tick(self.ticks, index) || (forall|i: int|
            0 <= i < self.ticks.len() ==> (#[trigger] self.ticks[i]).index < index))
    }

    /// The state with the boundary written, replacing a known tick or
    /// appended above the list.
    pub open spec fn spec_place_tick(self, index: i32, sqrt_price: u128, net: i128) -> V3View {
        let ti = TickInfo { index, sqrt_price, liquidity_net: net, initialized: true };
        if has_tick(self.ticks, index) {
            V3View { ticks: self.ticks.update(tick_pos(self.ticks, index), ti), ..self }
        } else {
            V3View { ticks: self.ticks.push(ti), ..self }
        }
    }

    /// The state after offering the boundary: written when acceptable,
    /// otherwise unchanged.
    pub open spec fn spec_load_tick(self, index: i32, sqrt_price: u128, net: i128) -> V3View {
        if self.can_place(index, sqrt_price, net) {
            self.spec_place_tick(index, sqrt_price, net)
        } else {
            self
        }
    }

    /// The post-fee input, the walk entry position, and the walk itself.
    pub open spec fn spec_swap_full(self, token_in: Address, amount_in: u128) -> Result<
        V3SwapOutcome,
        SwapSimulationError,
    > {
        let k = (1000000 - self.fee) as int;
        if amount_in as int * k > u128::MAX {
            Err(SwapSimulationError::AmountOutOfRange)
        } else {
            let a_eff = ((amount_in as int * k) / 1000000) as u128;
            let pos = first_above(self.ticks, self.tick, 0);
            if token_in == self.token_a {
                walk_down_spec(self.ticks, pos, self.sqrt_price, self.tick, self.liquidity, a_eff, 0)
            } else {
                walk_up_spec(self.ticks, pos, self.sqrt_price, self.tick, self.liquidity, a_eff, 0)
            }
        }
    }

    /// The projected output alone.
    pub open spec fn spec_simulate_swap(self, token_in: Address, amount_in: u128) -> Result<
        u128,
        SwapSimulationError,
    > {
        match self.spec_swap_full(token_in, amount_in) {
            Ok(o) => Ok(o.amount_out),
            Err(e) => Err(e),
        }
    }

    /// The committed swap: the post-swap state and the projected result.
    pub open spec fn spec_simulate_swap_mut(self, token_in: Address, amount_in: u128) -> (
        V3View,
        Result<u128, SwapSimulationError>,
    ) {
        match self.spec_swap_full(token_in, amount_in) {
            Err(e) => (self, Err(e)),
            Ok(o) => (
                V3View { sqrt_price: o.sqrt_price, tick: o.tick, liquidity: o.liquidity, ..self },
                Ok(o.amount_out),
            ),
        }
    }

    /// The projected price: the squared current square-root price
    /// normalized by both tokens' decimals, or the error owed.
    pub open spec fn spec_calculate_price(self, base_token: Address) -> Result<
        Ratio,
        ArithmeticError,
    > {
        let na = self.sqrt_price as int * self.sqrt_price as int * pow10(
            self.token_a_decimals as nat,
        );
        let db = SQRT_SCALE as int * SQRT_SCALE as int * pow10(self.token_b_decimals as nat);
        if na <= u128::MAX && db <= u128::MAX {
            if base_token == self.token_a {
                Ok(Ratio { num: na as u128, den: db as u128 })
            } else {
                Ok(Ratio { num: db as u128, den: na as u128 })
            }
        } else {
            Err(ArithmeticError::Overflow)
        }
    }

    /// The local output derivative at the post-swap price: the squared
    /// price ratio scaled by the fee retention, as an exact wide ratio.
    /// Defined on exactly the inputs on which the swap simulation is, with
    /// the same error otherwise.
    pub open spec fn spec_gradient(self, token_in: Address, amount: u128) -> Result<
        WideRatio,
        SwapSimulationError,
    > {
        match self.spec_swap_full(token_in, amount) {
            Err(e) => Err(e),
            Ok(o) => {
                let k = (1000000 - self.fee) as int;
                if token_in == self.token_a {
                    Ok(
                        WideRatio {
                            num: w256_of(k * o.sqrt_price * o.sqrt_price),
                            den: w256_of(1000000 * SQRT_SCALE as int * SQRT_SCALE as int),
                        },
                    )
                } else {
                    Ok(
                        WideRatio {
                            num: w256_of(k * SQRT_SCALE as int * SQRT_SCALE as int),
                            den: w256_of(1000000 * o.sqrt_price as int * o.sqrt_price as int),
                        },
                    )
                }
            },
        }
    }
}

impl UniswapV3Pool {
    /// Constructs an unhydrated pool mirror at the unit price.
    pub fn new(
        address: Address,
        token_a: Address,
        token_b: Address,
        token_a_decimals: u8,
        token_b_decimals: u8,
        fee: u32,
        tick_spacing: u32,
    ) -> (r: UniswapV3Pool)
        requires
            fee < 1000000,
            token_a.spec_lt(token_b),
            token_a_decimals <= 38,
            token_b_decimals <= 38,
        ensures
            r@.wf(),
            r@ == (V3View {
                address,
                token_a,
                token_b,
                token_a_decimals,
                token_b_decimals,
                fee,
                tick: 0,
                sqrt_price: SQRT_SCALE,
                liquidity: 0,
                tick_spacing,
                ticks: Seq::<TickInfo>::empty(),
                last_synced: 0,
            }),
    {
        let r = UniswapV3Pool {
            address,
            token_a,
            token_b,
            token_a_decimals,
            token_b_decimals,
            fee,
            tick: 0,
            sqrt_price: SQRT_SCALE,
            liquidity: 0,
            tick_spacing,
            ticks: Vec::new(),
            last_synced: 0,
        };
        proof {
            assert(r@.ticks =~= Seq::<TickInfo>::empty());
            assert(r@ =~= (V3View {
                address,
                token_a,
                token_b,
                token_a_decimals,
                token_b_decimals,
                fee,
                tick: 0,
                sqrt_price: SQRT_SCALE,
                liquidity: 0,
                tick_spacing,
                ticks: Seq::<TickInfo>::empty(),
                last_synced: 0,
            }));
        }
        r
    }

    /// Runtime check of the whole tick list against its invariants.
    fn check_ticks_wf(&self) -> (r: bool)
        ensures
            r == ticks_wf(self.ticks@),
    {
        let n = self.ticks.len();
        let mut i: usize = 0;
        while i < n
            invariant
                i <= n,
                n == self.ticks@.len(),
                forall|j: int|
                    0 <= j < i ==> 1 <= (#[trigger] self.ticks@[j]).sqrt_price < MAX_SQRT_PRICE
                        && self.ticks@[j].liquidity_net > i128::MIN && MIN_TICK
                        <= self.ticks@[j].index <= MAX_TICK && self.ticks@[j].initialized,
                forall|j: int|
                    1 <= j < i ==> (#[trigger] self.ticks@[j]).index > self.ticks@[j - 1].index
                        && self.ticks@[j].sqrt_price > self.ticks@[j - 1].sqrt_price,
            decreases n - i,
        {
            let t = self.ticks[i];
            if t.sqrt_price < 1 || t.sqrt_price >= MAX_SQRT_PRICE || t.liquidity_net == i128::MIN
                || t.index < MIN_TICK || t.index > MAX_TICK || !t.initialized {
                return false;
            }
            if i > 0 {
                let pr = self.ticks[i - 1];
                if pr.index >= t.index || pr.sqrt_price >= t.sqrt_price {
                    return false;
                }
            }
            i = i + 1;
        }
        proof {
            if n > 0 {
                assert forall|a: int, b: int| 0 <= a < b < n implies (#[trigger] self.ticks@[a]).index
                    < (#[trigger] self.ticks@[b]).index && self.ticks@[a].sqrt_price
                    < self.ticks@[b].sqrt_price by {
                    lemma_adjacent_sorted_pair(self.ticks@, a, b);
                }
            }
        }
        true
    }

    /// Runtime check of the pool's well-formedness, for callers that
    /// rebuild instances from untrusted serialized state.
    pub fn check_wf(&self) -> (r: bool)
        ensures
            r == self@.wf(),
    {
        if self.fee >= 1000000 || !self.token_a.lt(&self.token_b) || self.token_a_decimals > 38
            || self.token_b_decimals > 38 {
            return false;
        }
        if self.sqrt_price < 1 || self.sqrt_price >= MAX_SQRT_PRICE {
            return false;
        }
        if self.tick < MIN_TICK - 1 || self.tick > MAX_TICK {
            return false;
        }
        if !self.check_ticks_wf() {
            return false;
        }
        self.check_consistent(self.tick, self.sqrt_price)
    }

    /// Stable identity of the pool.
    pub fn address(&self) -> (r: Address)
        ensures
            r == self.address,
    {
        self.address
    }

    /// The fixed two-token set of the pool.
    pub fn tokens(&self) -> (r: Vec<Address>)
        ensures
            r@ =~= seq![self.token_a, self.token_b],
    {
        let mut v: Vec<Address> = Vec::new();
        v.push(self.token_a);
        v.push(self.token_b);
        v
    }

    /// The counterpart of `token_in`; `token_a` when `token_in` is not a
    /// member of the pool.
    pub fn get_token_out(&self, token_in: Address) -> (r: Address)
        ensures
            r == (if token_in == self.token_a {
                self.token_b
            } else {
                self.token_a
            }),
    {
        if token_in == self.token_a {
            self.token_b
        } else {
            self.token_a
        }
    }

    /// The counterpart of `token`, or nothing when `token` is not a member.
    pub fn opp_token(&self, token: Address) -> (r: Option<Address>)
        ensures
            token == self.token_a ==> r == Some(self.token_b),
            token == self.token_b && token != self.token_a ==> r == Some(self.token_a),
            token != self.token_a && token != self.token_b ==> r is None,
    {
        if token == self.token_a {
            Some(self.token_b)
        } else if token == self.token_b {
            Some(self.token_a)
        } else {
            None
        }
    }

    /// The walk entry position: the first boundary strictly above the
    /// current tick.
    fn find_pos(&self) -> (r: usize)
        ensures
            r as int == first_above(self.ticks@, self.tick, 0),
            r <= self.ticks@.len(),
    {
        let n = self.ticks.len();
        let mut i: usize = 0;
        while i < n
            invariant
                i <= n,
                n == self.ticks@.len(),
                first_above(self.ticks@, self.tick, 0) == first_above(
                    self.ticks@,
                    self.tick,
                    i as int,
                ),
            decreases n - i,
        {
            if self.ticks[i].index > self.tick {
                return i;
            }
            i = i + 1;
        }
        i
    }

    /// Runs the full swap walk for an exact input after the fee is taken.
    fn swap_full(&self, token_in: Address, amount_in: u128) -> (r: Result<
        V3SwapOutcome,
        SwapSimulationError,
    >)
        requires
            self@.wf(),
        ensures
            r == self@.spec_swap_full(token_in, amount_in),
            r matches Ok(o) ==> walk_pre(self.ticks@, o.pos as int, o.tick, o.sqrt_price)
                && MIN_TICK - 1 <= o.tick <= MAX_TICK,
    {
        let k = (V3_FEE_SCALE - self.fee) as u128;
        let scaled = match amount_in.checked_mul(k) {
            Some(v) => v,
            None => {
                return Err(SwapSimulationError::AmountOutOfRange);
            },
        };
        let a_eff = scaled / 1000000;
        proof {
            vstd::arithmetic::div_mod::lemma_div_pos_is_pos(scaled as int, 1000000);
            vstd::arithmetic::div_mod::lemma_div_is_ordered_by_denominator(scaled as int, 1, 1000000);
        }
        let pos = self.find_pos();
        proof {
            lemma_first_above_props(self.ticks@, self.tick, 0);
        }
        if token_in == self.token_a {
            walk_down(&self.ticks, pos, self.sqrt_price, self.tick, self.liquidity, a_eff, 0)
        } else {
            walk_up(&self.ticks, pos, self.sqrt_price, self.tick, self.liquidity, a_eff, 0)
        }
    }

    /// Projects the output of a hypothetical exact-input swap: walks ticks
    /// from the current price in the direction implied by `token_in`.
    pub fn simulate_swap(&self, token_in: Address, amount_in: u128) -> (r: Result<
        u128,
        SwapSimulationError,
    >)
        requires
            self@.wf(),
        ensures
            r == self@.spec_simulate_swap(token_in, amount_in),
    {
        match self.swap_full(token_in, amount_in) {
            Ok(o) => Ok(o.amount_out),
            Err(e) => Err(e),
        }
    }

    /// Projects the same swap and additionally commits the resulting price,
    /// tick and active liquidity.
    pub fn simulate_swap_mut(&mut self, token_in: Address, amount_in: u128) -> (r: Result<
        u128,
        SwapSimulationError,
    >)
        requires
            old(self)@.wf(),
        ensures
            final(self)@.wf(),
            r == old(self)@.spec_simulate_swap(token_in, amount_in),
            r is Err ==> final(self)@ == old(self)@,
            old(self)@.spec_swap_full(token_in, amount_in) matches Ok(o) ==> final(self)@
                == (V3View { sqrt_price: o.sqrt_price, tick: o.tick, liquidity: o.liquidity, ..old(
                self,
            )@ }),
            (final(self)@, r) == old(self)@.spec_simulate_swap_mut(token_in, amount_in),
    {
        let o = match self.swap_full(token_in, amount_in) {
            Ok(o) => o,
            Err(e) => {
                return Err(e);
            },
        };
        self.sqrt_price = o.sqrt_price;
        self.tick = o.tick;
        self.liquidity = o.liquidity;
        proof {
            lemma_walk_pre_consistent(self.ticks@, o.pos as int, o.tick, o.sqrt_price);
            assert(final(self)@ =~= (V3View {
                sqrt_price: o.sqrt_price,
                tick: o.tick,
                liquidity: o.liquidity,
                ..old(self)@
            }));
        }
        Ok(o.amount_out)
    }

    /// Local derivative of the swap output with respect to the input at the
    /// given input amount, as an exact wide ratio. Succeeds on exactly the
    /// inputs on which the swap simulation does, and fails with the same
    /// error otherwise.
    pub fn gradient(&self, token_in: Address, amount: u128) -> (r: Result<
        WideRatio,
        SwapSimulationError,
    >)
        requires
            self@.wf(),
        ensures
            r == self@.spec_gradient(token_in, amount),
            r is Ok <==> self@.spec_swap_full(token_in, amount) is Ok,
            r matches Ok(g) ==> g.wf(),
    {
        let o = match self.swap_full(token_in, amount) {
            Ok(o) => o,
            Err(e) => {
                return Err(e);
            },
        };
        let k = (V3_FEE_SCALE - self.fee) as u128;
        proof {
            assert(k as int * o.sqrt_price as int <= 1000000 * (MAX_SQRT_PRICE - 1) && 1000000
                * o.sqrt_price as int <= 1000000 * (MAX_SQRT_PRICE - 1)) by (nonlinear_arith)
                requires
                    1 <= k <= 1000000,
                    1 <= o.sqrt_price as int <= MAX_SQRT_PRICE - 1,
            ;
        }
        if token_in == self.token_a {
            let t = k * o.sqrt_price;
            let num = mul_u128(t, o.sqrt_price);
            let den_lo = 1000000 * SQRT_SCALE * SQRT_SCALE;
            proof {
                assert(w256_val(num) == (1000000 - self.fee) as int * o.sqrt_price as int
                    * o.sqrt_price as int);
                lemma_w256_of_val(num);
                lemma_w256_small(den_lo);
            }
            Ok(WideRatio { num, den: W256 { hi: 0, lo: den_lo } })
        } else {
            let t = 1000000 * o.sqrt_price;
            let den = mul_u128(t, o.sqrt_price);
            let num_lo = (k * SQRT_SCALE) * SQRT_SCALE;
            proof {
                assert(w256_val(den) == 1000000 * o.sqrt_price as int * o.sqrt_price as int);
                assert(w256_val(den) >= 1) by (nonlinear_arith)
                    requires
                        w256_val(den) == 1000000 * o.sqrt_price as int * o.sqrt_price as int,
                        o.sqrt_price >= 1,
                ;
                lemma_w256_of_val(den);
                lemma_w256_small(num_lo);
            }
            Ok(WideRatio { num: W256 { hi: 0, lo: num_lo }, den })
        }
    }

    /// Marginal exchange rate of the counterpart token per unit of
    /// `base_token`, normalized by both tokens' decimals, as an exact ratio.
    pub fn calculate_price(&self, base_token: Address) -> (r: Result<Ratio, ArithmeticError>)
        requires
            self@.wf(),
        ensures
            base_token == self.token_a && self.sqrt_price as int * self.sqrt_price as int * pow10(
                self.token_a_decimals as nat,
            ) <= u128::MAX && SQRT_SCALE as int * SQRT_SCALE as int * pow10(
                self.token_b_decimals as nat,
            ) <= u128::MAX ==> r == Ok::<Ratio, ArithmeticError>(
                Ratio {
                    num: (self.sqrt_price as int * self.sqrt_price as int * pow10(
                        self.token_a_decimals as nat,
                    )) as u128,
                    den: (SQRT_SCALE as int * SQRT_SCALE as int * pow10(
                        self.token_b_decimals as nat,
                    )) as u128,
                },
            ),
            base_token != self.token_a && SQRT_SCALE as int * SQRT_SCALE as int * pow10(
                self.token_b_decimals as nat,
            ) <= u128::MAX && self.sqrt_price as int * self.sqrt_price as int * pow10(
                self.token_a_decimals as nat,
            ) <= u128::MAX ==> r == Ok::<Ratio, ArithmeticError>(
                Ratio {
                    num: (SQRT_SCALE as int * SQRT_SCALE as int * pow10(
                        self.token_b_decimals as nat,
                    )) as u128,
                    den: (self.sqrt_price as int * self.sqrt_price as int * pow10(
                        self.token_a_decimals as nat,
                    )) as u128,
                },
            ),
            r is Err ==> r == Err::<Ratio, ArithmeticError>(ArithmeticError::Overflow),
            r matches Ok(g) ==> g.wf(),
            r == self@.spec_calculate_price(base_token),
    {
        let pa = pow10_u128(self.token_a_decimals);
        let pb = pow10_u128(self.token_b_decimals);
        let sq2 = match self.sqrt_price.checked_mul(self.sqrt_price) {
            Some(v) => v,
            None => {
                proof {
                    lemma_pow10_pos(self.token_a_decimals as nat);
                    assert(self.sqrt_price as int * self.sqrt_price as int * pow10(
                        self.token_a_decimals as nat,
                    ) > u128::MAX) by (nonlinear_arith)
                        requires
                            self.sqrt_price as int * self.sqrt_price as int > u128::MAX,
                            pow10(self.token_a_decimals as nat) >= 1,
                    ;
                }
                return Err(ArithmeticError::Overflow);
            },
        };
        let num_a = match sq2.checked_mul(pa) {
            Some(v) => v,
            None => {
                return Err(ArithmeticError::Overflow);
            },
        };
        let ss = SQRT_SCALE * SQRT_SCALE;
        let den_b = match ss.checked_mul(pb) {
            Some(v) => v,
            None => {
                return Err(ArithmeticError::Overflow);
            },
        };
        proof {
            lemma_pow10_pos(self.token_a_decimals as nat);
            lemma_pow10_pos(self.token_b_decimals as nat);
            assert(self.sqrt_price as int * self.sqrt_price as int * pow10(
                self.token_a_decimals as nat,
            ) >= 1 && SQRT_SCALE as int * SQRT_SCALE as int * pow10(self.token_b_decimals as nat)
                >= 1) by (nonlinear_arith)
                requires
                    self.sqrt_price >= 1,
                    pow10(self.token_a_decimals as nat) >= 1,
                    pow10(self.token_b_decimals as nat) >= 1,
            ;
        }
        if base_token == self.token_a {
            Ok(Ratio { num: num_a, den: den_b })
        } else {
            Ok(Ratio { num: den_b, den: num_a })
        }
    }
}

impl V3View {
    /// Both boundary positions straddle the current tick.
    pub open spec fn boundaries_in_range(self, li: int, ui: int) -> bool {
        self.ticks[li].index <= self.tick && self.tick < self.ticks[ui].index
    }

    /// A liquidity mint between the boundaries stays within every integer
    /// width.
    pub open spec fn mint_ok(self, li: int, ui: int, amt: u128) -> bool {
        &&& self.ticks[li].liquidity_net + amt <= i128::MAX
        &&& i128::MIN < self.ticks[ui].liquidity_net - amt
        &&& (self.boundaries_in_range(li, ui) ==> self.liquidity + amt <= u128::MAX)
    }

    /// A liquidity burn between the boundaries stays within every integer
    /// width and never drives active liquidity negative.
    pub open spec fn burn_ok(self, li: int, ui: int, amt: u128) -> bool {
        &&& i128::MIN < self.ticks[li].liquidity_net - amt
        &&& self.ticks[ui].liquidity_net + amt <= i128::MAX
        &&& (self.boundaries_in_range(li, ui) ==> self.liquidity >= amt)
    }

    /// The state after a mint of `amt` liquidity between the boundaries.
    pub open spec fn spec_apply_mint(self, li: int, ui: int, amt: u128, block: u64) -> V3View {
        let tl = self.ticks[li];
        let tu = self.ticks[ui];
        let ticks2 = self.ticks.update(
            li,
            TickInfo { liquidity_net: (tl.liquidity_net + amt) as i128, ..tl },
        ).update(ui, TickInfo { liquidity_net: (tu.liquidity_net - amt) as i128, ..tu });
        let liq2 = if self.boundaries_in_range(li, ui) {
            (self.liquidity + amt) as u128
        } else {
            self.liquidity
        };
        V3View { ticks: ticks2, liquidity: liq2, last_synced: block, ..self }
    }

    /// The state after a burn of `amt` liquidity between the boundaries.
    pub open spec fn spec_apply_burn(self, li: int, ui: int, amt: u128, block: u64) -> V3View {
        let tl = self.ticks[li];
        let tu = self.ticks[ui];
        let ticks2 = self.ticks.update(
            li,
            TickInfo { liquidity_net: (tl.liquidity_net - amt) as i128, ..tl },
        ).update(ui, TickInfo { liquidity_net: (tu.liquidity_net + amt) as i128, ..tu });
        let liq2 = if self.boundaries_in_range(li, ui) {
            (self.liquidity - amt) as u128
        } else {
            self.liquidity
        };
        V3View { ticks: ticks2, liquidity: liq2, last_synced: block, ..self }
    }

    /// A swap-event payload is three clean words carrying a positive price,
    /// an admissible tick word, and a triple consistent with the known
    /// boundaries.
    pub open spec fn swap_words_valid(self, words: Seq<W256>) -> bool {
        &&& words.len() == 3
        &&& words[0].hi == 0 && words[1].hi == 0 && words[2].hi == 0
        &&& 1 <= words[0].lo < MAX_SQRT_PRICE
        &&& words[1].lo <= 1774545
        &&& ticks_consistent(self.ticks, spec_tick_of_word(words[1].lo), words[0].lo)
    }

    /// A mint- or burn-event payload is three clean words carrying two
    /// known, ordered boundary tick words and an amount that fits a signed
    /// word.
    pub open spec fn liquidity_words_valid(self, words: Seq<W256>) -> bool {
        &&& words.len() == 3
        &&& words[0].hi == 0 && words[1].hi == 0 && words[2].hi == 0
        &&& 1 <= words[0].lo <= 1774545
        &&& 1 <= words[1].lo <= 1774545
        &&& spec_tick_of_word(words[0].lo) < spec_tick_of_word(words[1].lo)
        &&& has_tick(self.ticks, spec_tick_of_word(words[0].lo))
        &&& has_tick(self.ticks, spec_tick_of_word(words[1].lo))
        &&& words[2].lo <= i128::MAX
    }

    /// Decodes one event by signature and applies the minimal implied
    /// delta: the authoritative triple of a swap, or the boundary
    /// liquidity-net adjustments of a mint or burn. A swap triple that
    /// contradicts the locally stored boundary prices is rejected as
    /// malformed rather than applied: accepting it would break the
    /// price-within-tick-bounds invariant, and the error lets the caller
    /// escalate to a full resync.
    pub open spec fn spec_sync_from_log(self, topic: W256, words: Seq<W256>, block: u64) -> (
        V3View,
        Result<(), EventLogError>,
    ) {
        if topic.hi == POOL_SWAP_TOPIC_HI && topic.lo == POOL_SWAP_TOPIC_LO {
            if !self.swap_words_valid(words) {
                (self, Err(EventLogError::MalformedPayload))
            } else if block < self.last_synced {
                (self, Ok(()))
            } else {
                (
                    V3View {
                        sqrt_price: words[0].lo,
                        tick: spec_tick_of_word(words[1].lo),
                        liquidity: words[2].lo,
                        last_synced: block,
                        ..self
                    },
                    Ok(()),
                )
            }
        } else if topic.hi == POOL_MINT_TOPIC_HI && topic.lo == POOL_MINT_TOPIC_LO {
            if !self.liquidity_words_valid(words) {
                (self, Err(EventLogError::MalformedPayload))
            } else {
                let li = tick_pos(self.ticks, spec_tick_of_word(words[0].lo));
                let ui = tick_pos(self.ticks, spec_tick_of_word(words[1].lo));
                if !self.mint_ok(li, ui, words[2].lo) {
                    (self, Err(EventLogError::MalformedPayload))
                } else if block < self.last_synced {
                    (self, Ok(()))
                } else {
                    (self.spec_apply_mint(li, ui, words[2].lo, block), Ok(()))
                }
            }
        } else if topic.hi == POOL_BURN_TOPIC_HI && topic.lo == POOL_BURN_TOPIC_LO {
            if !self.liquidity_words_valid(words) {
                (self, Err(EventLogError::MalformedPayload))
            } else {
                let li = tick_pos(self.ticks, spec_tick_of_word(words[0].lo));
                let ui = tick_pos(self.ticks, spec_tick_of_word(words[1].lo));
                if !self.burn_ok(li, ui, words[2].lo) {
                    (self, Err(EventLogError::MalformedPayload))
                } else if block < self.last_synced {
                    (self, Ok(()))
                } else {
                    (self.spec_apply_burn(li, ui, words[2].lo, block), Ok(()))
                }
            }
        } else {
            (self, Err(EventLogError::InvalidEventSignature))
        }
    }

    /// Applies one recognized storage slot: the packed price-and-tick slot,
    /// the liquidity slot, or one tick-range key; anything else, or a value
    /// the invariants reject, is ignored.
    pub open spec fn spec_apply_slot(self, k: u64, v: W256) -> (V3View, bool) {
        if k == SLOT0_SLOT {
            if v.hi >= 1 && v.hi < MAX_SQRT_PRICE && v.lo <= 1774545 && ticks_consistent(
                self.ticks,
                spec_tick_of_word(v.lo),
                v.hi,
            ) {
                (V3View { sqrt_price: v.hi, tick: spec_tick_of_word(v.lo), ..self }, true)
            } else {
                (self, false)
            }
        } else if k == LIQUIDITY_SLOT {
            if v.hi == 0 {
                (V3View { liquidity: v.lo, ..self }, true)
            } else {
                (self, false)
            }
        } else if TICK_SLOT_BASE <= k <= TICK_SLOT_END {
            if v.lo >= 1 {
                let index = ((k - TICK_SLOT_BASE - TICK_WORD_OFFSET) as int) as i32;
                (
                    self.spec_load_tick(index, v.hi, decode_net(v.lo)),
                    self.can_place(index, v.hi, decode_net(v.lo)),
                )
            } else {
                (self, false)
            }
        } else {
            (self, false)
        }
    }

    /// Applies the first `n` entries of a storage diff in order, tracking
    /// whether any recognized key was applied.
    pub open spec fn spec_apply_entries(self, s: Seq<(u64, W256)>, n: int) -> (V3View, bool)
        decreases n,
    {
        if n <= 0 {
            (self, false)
        } else {
            let prev = self.spec_apply_entries(s, n - 1);
            let step = prev.0.spec_apply_slot(s[n - 1].0, s[n - 1].1);
            (step.0, prev.1 || step.1)
        }
    }

    /// The canonical storage export: the packed price-and-tick slot, the
    /// liquidity slot, and one tick-range slot per known boundary.
    pub open spec fn spec_reserves(self) -> Seq<(u64, W256)> {
        seq![
            (SLOT0_SLOT, W256 { hi: self.sqrt_price, lo: (self.tick + TICK_WORD_OFFSET) as u128 }),
            (LIQUIDITY_SLOT, W256 { hi: 0, lo: self.liquidity }),
        ] + Seq::new(
            self.ticks.len(),
            |i: int|
                (
                    spec_tick_slot(self.ticks[i].index),
                    W256 {
                        hi: self.ticks[i].sqrt_price,
                        lo: encode_net(self.ticks[i].liquidity_net),
                    },
                ),
        )
    }
}

impl UniswapV3Pool {
    /// Whether a candidate tick and price sit consistently against every
    /// known boundary.
    fn check_consistent(&self, tick: i32, sq: u128) -> (r: bool)
        ensures
            r == ticks_consistent(self.ticks@, tick, sq),
    {
        let n = self.ticks.len();
        let mut i: usize = 0;
        while i < n
            invariant
                i <= n,
                n == self.ticks@.len(),
                forall|j: int|
                    0 <= j < i ==> (((#[trigger] self.ticks@[j]).index <= tick
                        ==> self.ticks@[j].sqrt_price <= sq) && (self.ticks@[j].index > tick
                        ==> self.ticks@[j].sqrt_price >= sq)),
            decreases n - i,
        {
            let t = self.ticks[i];
            if t.index <= tick {
                if t.sqrt_price > sq {
                    return false;
                }
            } else {
                if t.sqrt_price < sq {
                    return false;
                }
            }
            i = i + 1;
        }
        true
    }

    /// The position where a boundary with this index sits or would sit.
    fn find_tick_pos(&self, index: i32) -> (r: usize)
        requires
            index >= MIN_TICK,
        ensures
            r as int == tick_pos(self.ticks@, index),
            r <= self.ticks@.len(),
    {
        let below = index - 1;
        let n = self.ticks.len();
        let mut i: usize = 0;
        while i < n
            invariant
                i <= n,
                n == self.ticks@.len(),
                below == index - 1,
                first_above(self.ticks@, below, 0) == first_above(self.ticks@, below, i as int),
            decreases n - i,
        {
            if self.ticks[i].index > below {
                return i;
            }
            i = i + 1;
        }
        i
    }

    /// Whether the boundary can be accepted without breaking the tick-list
    /// invariants.
    fn check_place(&self, index: i32, sqrt_price: u128, net: i128) -> (r: bool)
        requires
            ticks_wf(self.ticks@),
        ensures
            r == self@.can_place(index, sqrt_price, net),
    {
        if index < MIN_TICK || index > MAX_TICK || sqrt_price < 1 || sqrt_price >= MAX_SQRT_PRICE
            || net == i128::MIN {
            return false;
        }
        let n = self.ticks.len();
        let mut i: usize = 0;
        let mut found = false;
        let mut all_less = true;
        while i < n
            invariant
                i <= n,
                n == self.ticks@.len(),
                forall|j: int|
                    0 <= j < i ==> (((#[trigger] self.ticks@[j]).index < index
                        ==> self.ticks@[j].sqrt_price < sqrt_price) && (self.ticks@[j].index
                        > index ==> self.ticks@[j].sqrt_price > sqrt_price)),
                found == exists|j: int|
                    0 <= j < i && (#[trigger] self.ticks@[j]).index == index,
                all_less == forall|j: int| 0 <= j < i ==> (#[trigger] self.ticks@[j]).index < index,
            decreases n - i,
        {
            let t = self.ticks[i];
            if t.index < index {
                if t.sqrt_price >= sqrt_price {
                    return false;
                }
            } else if t.index > index {
                if t.sqrt_price <= sqrt_price {
                    return false;
                }
                all_less = false;
            } else {
                proof {
                    assert(0 <= i < self.ticks@.len() && (self.ticks@[i as int]).index == index);
                }
                found = true;
                all_less = false;
            }
            i = i + 1;
        }
        if index <= self.tick {
            if sqrt_price > self.sqrt_price {
                return false;
            }
        } else {
            if sqrt_price < self.sqrt_price {
                return false;
            }
        }
        proof {
            lemma_has_tick_position(self@.ticks, index);
        }
        found || all_less
    }

    /// Writes an accepted boundary: replaces the known tick of the same
    /// index or appends above the list.
    fn place_tick(&mut self, index: i32, sqrt_price: u128, net: i128)
        requires
            old(self)@.wf(),
            old(self)@.can_place(index, sqrt_price, net),
        ensures
            final(self)@.wf(),
            final(self)@ == old(self)@.spec_place_tick(index, sqrt_price, net),
    {
        let ti = TickInfo { index, sqrt_price, liquidity_net: net, initialized: true };
        let p = self.find_tick_pos(index);
        proof {
            lemma_first_above_props(self.ticks@, (index - 1) as i32, 0);
        }
        if p < self.ticks.len() && self.ticks[p].index == index {
            self.ticks[p] = ti;
            proof {
                let sv = self.ticks@;
                let ov = old(self).ticks@;
                let pp = p as int;
                assert forall|i: int, j: int| 0 <= i < j < sv.len() implies (#[trigger] sv[i]).index
                    < (#[trigger] sv[j]).index && sv[i].sqrt_price < sv[j].sqrt_price by {
                    if i == pp {
                        assert(ov[pp].index < ov[j].index);
                    } else if j == pp {
                        assert(ov[i].index < ov[pp].index);
                    }
                }
                assert(final(self)@ =~= old(self)@.spec_place_tick(index, sqrt_price, net));
            }
        } else {
            proof {
                let ov = old(self).ticks@;
                let pp = p as int;
                if pp < ov.len() {
                    assert(ov[pp].index < index);
                    assert(ov[pp].index > index - 1);
                }
                assert(pp == ov.len());
                assert(!has_tick(ov, index));
            }
            self.ticks.push(ti);
            proof {
                let sv = self.ticks@;
                let ov = old(self).ticks@;
                assert forall|i: int, j: int| 0 <= i < j < sv.len() implies (#[trigger] sv[i]).index
                    < (#[trigger] sv[j]).index && sv[i].sqrt_price < sv[j].sqrt_price by {
                    if j == sv.len() - 1 {
                        assert(ov[i].index < index);
                    }
                }
                assert(final(self)@ =~= old(self)@.spec_place_tick(index, sqrt_price, net));
            }
        }
    }

    /// Offers one boundary to the sparse tick mapping, used when replaying
    /// raw storage or hydrating from an authoritative read; reports whether
    /// it was accepted.
    pub fn load_tick(&mut self, index: i32, sqrt_price: u128, liquidity_net: i128) -> (r: bool)
        requires
            old(self)@.wf(),
        ensures
            final(self)@.wf(),
            r == old(self)@.can_place(index, sqrt_price, liquidity_net),
            final(self)@ == old(self)@.spec_load_tick(index, sqrt_price, liquidity_net),
    {
        if self.check_place(index, sqrt_price, liquidity_net) {
            self.place_tick(index, sqrt_price, liquidity_net);
            true
        } else {
            false
        }
    }

    /// Applies an authoritative price, tick and liquidity snapshot read
    /// from the chain, unless it is stale or inconsistent with the known
    /// boundaries; reports whether it was applied.
    pub fn apply_slot0_snapshot(
        &mut self,
        sqrt_price: u128,
        tick: i32,
        liquidity: u128,
        block: u64,
    ) -> (r: bool)
        requires
            old(self)@.wf(),
        ensures
            final(self)@.wf(),
            r == (1 <= sqrt_price < MAX_SQRT_PRICE && MIN_TICK - 1 <= tick <= MAX_TICK
                && ticks_consistent(old(self).ticks@, tick, sqrt_price) && block >= old(
                self,
            ).last_synced),
            r ==> final(self)@ == (V3View {
                sqrt_price,
                tick,
                liquidity,
                last_synced: block,
                ..old(self)@
            }),
            !r ==> final(self)@ == old(self)@,
    {
        if sqrt_price < 1 || sqrt_price >= MAX_SQRT_PRICE || tick < MIN_TICK - 1 || tick > MAX_TICK
            || block < self.last_synced {
            return false;
        }
        if !self.check_consistent(tick, sqrt_price) {
            return false;
        }
        self.sqrt_price = sqrt_price;
        self.tick = tick;
        self.liquidity = liquidity;
        self.last_synced = block;
        proof {
            assert(final(self)@ =~= (V3View {
                sqrt_price,
                tick,
                liquidity,
                last_synced: block,
                ..old(self)@
            }));
        }
        true
    }
}

/// In a sorted tick list, a boundary with a given index exists exactly when
/// one sits at its sorted position.
pub proof fn lemma_has_tick_position(s: Seq<TickInfo>, index: i32)
    requires
        ticks_wf(s),
        index >= MIN_TICK,
    ensures
        has_tick(s, index) <==> exists|j: int|
            0 <= j < s.len() && (#[trigger] s[j]).index == index,
{
    lemma_first_above_props(s, (index - 1) as i32, 0);
    let p = tick_pos(s, index);
    if exists|j: int| 0 <= j < s.len() && (#[trigger] s[j]).index == index {
        let j = choose|j: int| 0 <= j < s.len() && (#[trigger] s[j]).index == index;
        assert(j >= p);
        if j > p {
            assert(s[p].index < s[j].index);
        }
    }
}

/// Reads a stored liquidity net out of its unsigned word.
fn decode_net_word(lo: u128) -> (r: i128)
    requires
        lo >= 1,
    ensures
        r == decode_net(lo),
{
    if lo >= NET_OFFSET {
        (lo - NET_OFFSET) as i128
    } else {
        -((NET_OFFSET - lo) as i128)
    }
}

/// Writes a liquidity net as its unsigned word.
fn encode_net_word(n: i128) -> (r: u128)
    requires
        n > i128::MIN,
    ensures
        r == encode_net(n),
        r >= 1,
{
    if n >= 0 {
        NET_OFFSET + (n as u128)
    } else {
        NET_OFFSET - ((-n) as u128)
    }
}

impl UniswapV3Pool {
    /// The topics this pool needs subscribed: swap, mint and burn.
    pub fn sync_on_event_signatures(&self) -> (r: Vec<W256>)
        ensures
            r@ =~= seq![
                W256 { hi: POOL_SWAP_TOPIC_HI, lo: POOL_SWAP_TOPIC_LO },
                W256 { hi: POOL_MINT_TOPIC_HI, lo: POOL_MINT_TOPIC_LO },
                W256 { hi: POOL_BURN_TOPIC_HI, lo: POOL_BURN_TOPIC_LO },
            ],
    {
        let mut v: Vec<W256> = Vec::new();
        v.push(topic(POOL_SWAP_TOPIC_HI, POOL_SWAP_TOPIC_LO));
        v.push(topic(POOL_MINT_TOPIC_HI, POOL_MINT_TOPIC_LO));
        v.push(topic(POOL_BURN_TOPIC_HI, POOL_BURN_TOPIC_LO));
        v
    }

    /// Decodes one event by signature and applies the minimal implied
    /// delta; fails with an event-log error on an unrecognized topic or a
    /// payload the invariants reject.
    pub fn sync_from_log(&mut self, log: EventLog) -> (r: Result<(), EventLogError>)
        requires
            old(self)@.wf(),
        ensures
            final(self)@.wf(),
            final(self)@ == old(self)@.spec_sync_from_log(
                log.topic,
                log.words@,
                log.block_number,
            ).0,
            r == old(self)@.spec_sync_from_log(log.topic, log.words@, log.block_number).1,
    {
        let is_swap = log.topic.hi == POOL_SWAP_TOPIC_HI && log.topic.lo == POOL_SWAP_TOPIC_LO;
        let is_mint = log.topic.hi == POOL_MINT_TOPIC_HI && log.topic.lo == POOL_MINT_TOPIC_LO;
        let is_burn = log.topic.hi == POOL_BURN_TOPIC_HI && log.topic.lo == POOL_BURN_TOPIC_LO;
        if is_swap {
            if log.words.len() != 3 {
                return Err(EventLogError::MalformedPayload);
            }
            let w0 = log.words[0];
            let w1 = log.words[1];
            let w2 = log.words[2];
            if w0.hi != 0 || w1.hi != 0 || w2.hi != 0 || w0.lo < 1 || w0.lo >= MAX_SQRT_PRICE
                || w1.lo > 1774545 {
                return Err(EventLogError::MalformedPayload);
            }
            let tw = w1.lo as u64;
            let tick_new = (tw as i64 - 887273) as i32;
            proof {
                assert(tick_new == spec_tick_of_word(w1.lo));
            }
            if !self.check_consistent(tick_new, w0.lo) {
                return Err(EventLogError::MalformedPayload);
            }
            if log.block_number < self.last_synced {
                return Ok(());
            }
            self.sqrt_price = w0.lo;
            self.tick = tick_new;
            self.liquidity = w2.lo;
            self.last_synced = log.block_number;
            proof {
                assert(final(self)@ =~= old(self)@.spec_sync_from_log(
                    log.topic,
                    log.words@,
                    log.block_number,
                ).0);
            }
            Ok(())
        } else if is_mint || is_burn {
            if log.words.len() != 3 {
                return Err(EventLogError::MalformedPayload);
            }
            let w0 = log.words[0];
            let w1 = log.words[1];
            let w2 = log.words[2];
            if w0.hi != 0 || w1.hi != 0 || w2.hi != 0 || w0.lo < 1 || w0.lo > 1774545 || w1.lo < 1
                || w1.lo > 1774545 {
                return Err(EventLogError::MalformedPayload);
            }
            let lower = ((w0.lo as u64) as i64 - 887273) as i32;
            let upper = ((w1.lo as u64) as i64 - 887273) as i32;
            proof {
                assert(lower == spec_tick_of_word(w0.lo));
                assert(upper == spec_tick_of_word(w1.lo));
            }
            if lower >= upper {
                return Err(EventLogError::MalformedPayload);
            }
            if w2.lo > 0x7fffffffffffffffffffffffffffffff {
                return Err(EventLogError::MalformedPayload);
            }
            let li = self.find_tick_pos(lower);
            if li >= self.ticks.len() {
                return Err(EventLogError::MalformedPayload);
            }
            let tl = self.ticks[li];
            if tl.index != lower {
                return Err(EventLogError::MalformedPayload);
            }
            let ui = self.find_tick_pos(upper);
            if ui >= self.ticks.len() {
                return Err(EventLogError::MalformedPayload);
            }
            let tu = self.ticks[ui];
            if tu.index != upper {
                return Err(EventLogError::MalformedPayload);
            }
            let amt_u = w2.lo;
            let amt = amt_u as i128;
            let new_nl_opt = if is_mint {
                tl.liquidity_net.checked_add(amt)
            } else {
                tl.liquidity_net.checked_sub(amt)
            };
            let new_nl = match new_nl_opt {
                Some(v) => v,
                None => {
                    return Err(EventLogError::MalformedPayload);
                },
            };
            let new_nu_opt = if is_mint {
                tu.liquidity_net.checked_sub(amt)
            } else {
                tu.liquidity_net.checked_add(amt)
            };
            let new_nu = match new_nu_opt {
                Some(v) => v,
                None => {
                    return Err(EventLogError::MalformedPayload);
                },
            };
            if new_nl == i128::MIN || new_nu == i128::MIN {
                return Err(EventLogError::MalformedPayload);
            }
            let in_range = tl.index <= self.tick && self.tick < tu.index;
            let new_liq = if in_range {
                let o = if is_mint {
                    self.liquidity.checked_add(amt_u)
                } else {
                    self.liquidity.checked_sub(amt_u)
                };
                match o {
                    Some(v) => v,
                    None => {
                        return Err(EventLogError::MalformedPayload);
                    },
                }
            } else {
                self.liquidity
            };
            if log.block_number < self.last_synced {
                return Ok(());
            }
            self.ticks[li] = TickInfo { liquidity_net: new_nl, ..tl };
            self.ticks[ui] = TickInfo { liquidity_net: new_nu, ..tu };
            self.liquidity = new_liq;
            self.last_synced = log.block_number;
            proof {
                let sv = self.ticks@;
                let ov = old(self).ticks@;
                assert(li != ui);
                assert forall|i: int| 0 <= i < sv.len() implies (#[trigger] sv[i]).index
                    == ov[i].index && sv[i].sqrt_price == ov[i].sqrt_price && sv[i].initialized
                    == ov[i].initialized && sv[i].liquidity_net > i128::MIN by {}
                assert forall|i: int, j: int| 0 <= i < j < sv.len() implies (#[trigger] sv[i]).index
                    < (#[trigger] sv[j]).index && sv[i].sqrt_price < sv[j].sqrt_price by {
                    assert(ov[i].index < ov[j].index && ov[i].sqrt_price < ov[j].sqrt_price);
                }
                if is_mint {
                    assert(final(self)@ =~= old(self)@.spec_apply_mint(
                        li as int,
                        ui as int,
                        amt_u,
                        log.block_number,
                    ));
                } else {
                    assert(final(self)@ =~= old(self)@.spec_apply_burn(
                        li as int,
                        ui as int,
                        amt_u,
                        log.block_number,
                    ));
                }
            }
            Ok(())
        } else {
            Err(EventLogError::InvalidEventSignature)
        }
    }

    /// Applies one storage entry; reports whether it was a recognized,
    /// acceptable key.
    fn apply_slot(&mut self, k: u64, v: W256) -> (r: bool)
        requires
            old(self)@.wf(),
        ensures
            final(self)@.wf(),
            final(self)@ == old(self)@.spec_apply_slot(k, v).0,
            r == old(self)@.spec_apply_slot(k, v).1,
    {
        if k == SLOT0_SLOT {
            if v.hi >= 1 && v.hi < MAX_SQRT_PRICE && v.lo <= 1774545 {
                let tw = v.lo as u64;
                let tick_new = (tw as i64 - 887273) as i32;
                proof {
                    assert(tick_new == spec_tick_of_word(v.lo));
                }
                if self.check_consistent(tick_new, v.hi) {
                    self.sqrt_price = v.hi;
                    self.tick = tick_new;
                    proof {
                        assert(final(self)@ =~= old(self)@.spec_apply_slot(k, v).0);
                    }
                    return true;
                }
            }
            false
        } else if k == LIQUIDITY_SLOT {
            if v.hi == 0 {
                self.liquidity = v.lo;
                proof {
                    assert(final(self)@ =~= old(self)@.spec_apply_slot(k, v).0);
                }
                true
            } else {
                false
            }
        } else if k >= TICK_SLOT_BASE && k <= TICK_SLOT_END {
            if v.lo >= 1 {
                let index = ((k as i64) - 4096 - 887273) as i32;
                proof {
                    assert(index as int == ((k - TICK_SLOT_BASE - TICK_WORD_OFFSET) as int));
                }
                let net = decode_net_word(v.lo);
                self.load_tick(index, v.hi, net)
            } else {
                false
            }
        } else {
            false
        }
    }

    /// Applies recognized keys of a storage diff directly, in order,
    /// ignoring the rest; reports that some recognized key was applied, not
    /// an error. A recognized key whose value the invariants reject is
    /// ignored like an unrecognized one, so it contributes no presence
    /// signal.
    pub fn sync_from_storage(&mut self, diff: &StorageMap) -> (r: Option<()>)
        requires
            old(self)@.wf(),
        ensures
            final(self)@.wf(),
            final(self)@ == old(self)@.spec_apply_entries(diff@, diff@.len() as int).0,
            r is Some <==> old(self)@.spec_apply_entries(diff@, diff@.len() as int).1,
    {
        let n = diff.entries.len();
        let mut i: usize = 0;
        let mut applied = false;
        while i < n
            invariant
                i <= n,
                n == diff@.len(),
                self@.wf(),
                self@ == old(self)@.spec_apply_entries(diff@, i as int).0,
                applied == old(self)@.spec_apply_entries(diff@, i as int).1,
            decreases n - i,
        {
            let (k, v) = diff.entries[i];
            let a = self.apply_slot(k, v);
            applied = applied || a;
            i = i + 1;
        }
        if applied {
            Some(())
        } else {
            None
        }
    }

    /// Exports canonical state as ordered storage-slot pairs.
    pub fn reserves(&self) -> (r: StorageMap)
        requires
            self@.wf(),
        ensures
            r.wf(),
            r@ =~= self@.spec_reserves(),
    {
        let mut m = StorageMap::new();
        let tw = ((self.tick as i64) + 887273) as u128;
        m.append(SLOT0_SLOT, W256 { hi: self.sqrt_price, lo: tw });
        m.append(LIQUIDITY_SLOT, W256 { hi: 0, lo: self.liquidity });
        proof {
            assert(m@ =~= self@.spec_reserves().subrange(0, 2));
        }
        let n = self.ticks.len();
        let mut i: usize = 0;
        while i < n
            invariant
                i <= n,
                n == self.ticks@.len(),
                self@.wf(),
                m.wf(),
                m@ =~= self@.spec_reserves().subrange(0, 2 + i as int),
                m@.len() == 2 + i as int,
            decreases n - i,
        {
            let t = self.ticks[i];
            let key = 4096 + (((t.index as i64) + 887273) as u64);
            proof {
                assert(key == spec_tick_slot(self.ticks@[i as int].index));
                assert(m@.last().0 < key) by {
                    if i > 0 {
                        assert(self.ticks@[i as int - 1].index < self.ticks@[i as int].index);
                        assert(m@.last() == self@.spec_reserves()[1 + i as int]);
                    }
                }
            }
            let val = W256 { hi: t.sqrt_price, lo: encode_net_word(t.liquidity_net) };
            m.append(key, val);
            proof {
                assert(m@ =~= self@.spec_reserves().subrange(0, 2 + i as int + 1));
            }
            i = i + 1;
        }
        proof {
            assert(self@.spec_reserves().subrange(0, 2 + n as int) =~= self@.spec_reserves());
        }
        m
    }
}

/// A swap sized exactly to reach a known tick boundary crosses exactly that
/// one tick: the price lands on the boundary, the active liquidity changes
/// by exactly that tick's recorded liquidity-net, the walk position steps
/// past exactly one boundary, and no further state is touched.
pub proof fn lemma_exact_boundary_swap(
    s: Seq<TickInfo>,
    pos: int,
    sq: u128,
    tick: i32,
    liq: u128,
    rem: u128,
)
    requires
        walk_pre(s, pos, tick, sq),
        1 <= pos,
        rem > 0,
        liq as int * SQRT_SCALE as int <= u128::MAX,
        liq as int * SQRT_SCALE as int * (sq - s[pos - 1].sqrt_price) <= u128::MAX,
        sq as int * s[pos - 1].sqrt_price as int <= u128::MAX,
        rem == ceil_div(
            liq as int * SQRT_SCALE as int * (sq - s[pos - 1].sqrt_price),
            sq as int * s[pos - 1].sqrt_price as int,
        ),
        liq as int * (sq - s[pos - 1].sqrt_price) <= u128::MAX,
        0 <= liq - s[pos - 1].liquidity_net <= u128::MAX,
    ensures
        walk_down_spec(s, pos, sq, tick, liq, rem, 0) == Ok::<
            V3SwapOutcome,
            SwapSimulationError,
        >(
            V3SwapOutcome {
                amount_out: ((liq as int * (sq - s[pos - 1].sqrt_price))
                    / SQRT_SCALE as int) as u128,
                sqrt_price: s[pos - 1].sqrt_price,
                tick: (s[pos - 1].index - 1) as i32,
                liquidity: (liq - s[pos - 1].liquidity_net) as u128,
                pos: (pos - 1) as usize,
            },
        ),
{
    let b = s[pos - 1];
    let t = b.sqrt_price;
    assert(t <= sq && t >= 1);
    let seg = liq as int * (sq - t);
    assert(seg >= 0) by (nonlinear_arith)
        requires
            liq >= 0,
            sq as int >= t as int,
            seg == liq as int * (sq as int - t as int),
    ;
    let out = seg / SQRT_SCALE as int;
    vstd::arithmetic::div_mod::lemma_div_pos_is_pos(seg, SQRT_SCALE as int);
    vstd::arithmetic::div_mod::lemma_div_is_ordered_by_denominator(seg, 1, SQRT_SCALE as int);
    let tick2 = (b.index - 1) as i32;
    let liq2 = (liq - b.liquidity_net) as u128;
    assert(walk_down_spec(s, pos - 1, t, tick2, liq2, 0, out as u128) == Ok::<
        V3SwapOutcome,
        SwapSimulationError,
    >(
        V3SwapOutcome {
            amount_out: out as u128,
            sqrt_price: t,
            tick: tick2,
            liquidity: liq2,
            pos: (pos - 1) as usize,
        },
    ));
}

/// One entry of a pool's own export is accepted back unchanged: it is
/// recognized, and applying it returns the identical state.
proof fn lemma_apply_own_slot(v: V3View, j: int)
    requires
        v.wf(),
        0 <= j < v.spec_reserves().len(),
    ensures
        v.spec_apply_slot(v.spec_reserves()[j].0, v.spec_reserves()[j].1).0 == v,
        v.spec_apply_slot(v.spec_reserves()[j].0, v.spec_reserves()[j].1).1,
{
    let d = v.spec_reserves();
    let k = d[j].0;
    let val = d[j].1;
    if j == 0 {
        assert(k == SLOT0_SLOT);
        assert(val.hi == v.sqrt_price && val.lo == (v.tick + TICK_WORD_OFFSET) as u128);
        assert(val.lo <= 1774545);
        assert(spec_tick_of_word(val.lo) == v.tick);
        assert(v.spec_apply_slot(k, val).0 =~= v);
    } else if j == 1 {
        assert(k == LIQUIDITY_SLOT);
        assert(val == (W256 { hi: 0, lo: v.liquidity }));
        assert(v.spec_apply_slot(k, val).0 =~= v);
    } else {
        let i = j - 2;
        let t = v.ticks[i];
        assert(d[j] == (
            spec_tick_slot(t.index),
            W256 { hi: t.sqrt_price, lo: encode_net(t.liquidity_net) },
        ));
        assert(MIN_TICK <= t.index <= MAX_TICK && t.sqrt_price >= 1 && t.liquidity_net
            > i128::MIN && t.initialized);
        assert(k == spec_tick_slot(t.index));
        assert(k as int == 4096 + 887273 + t.index);
        assert(TICK_SLOT_BASE <= k <= TICK_SLOT_END);
        assert(k != SLOT0_SLOT && k != LIQUIDITY_SLOT);
        assert(val.lo == encode_net(t.liquidity_net));
        assert(val.lo as int == t.liquidity_net + NET_OFFSET);
        assert(val.lo >= 1);
        assert(decode_net(val.lo) == t.liquidity_net);
        let index = ((k - TICK_SLOT_BASE - TICK_WORD_OFFSET) as int) as i32;
        assert(index == t.index);
        // the boundary can be placed back: order against every other
        // boundary and against the current price follows from the
        // invariants
        assert forall|m: int| 0 <= m < v.ticks.len() implies (((#[trigger] v.ticks[m]).index
            < t.index ==> v.ticks[m].sqrt_price < t.sqrt_price) && (v.ticks[m].index > t.index
            ==> v.ticks[m].sqrt_price > t.sqrt_price)) by {
            if m < i {
                assert(v.ticks[m].index < t.index && v.ticks[m].sqrt_price < t.sqrt_price);
            } else if m > i {
                assert(t.index < v.ticks[m].index && t.sqrt_price < v.ticks[m].sqrt_price);
            }
        }
        lemma_first_above_props(v.ticks, (t.index - 1) as i32, 0);
        let pos = tick_pos(v.ticks, t.index);
        assert(pos <= i);
        if pos < i {
            assert(v.ticks[pos].index > t.index - 1);
            assert(v.ticks[pos].index < v.ticks[i].index);
        }
        assert(pos == i);
        assert(has_tick(v.ticks, t.index));
        assert(v.can_place(index, val.hi, decode_net(val.lo)));
        let ti = TickInfo {
            index: t.index,
            sqrt_price: t.sqrt_price,
            liquidity_net: t.liquidity_net,
            initialized: true,
        };
        assert(ti == t);
        assert(v.ticks.update(i, ti) =~= v.ticks);
        assert(v.spec_place_tick(index, val.hi, decode_net(val.lo)) =~= v);
        assert(v.spec_apply_slot(k, val).0 =~= v);
    }
}

/// Every prefix of a pool's own export applies back to the identical
/// state, and from the first entry on something recognized was applied.
proof fn lemma_apply_own_prefix(v: V3View, n: int)
    requires
        v.wf(),
        0 <= n <= v.spec_reserves().len(),
    ensures
        v.spec_apply_entries(v.spec_reserves(), n).0 == v,
        n >= 1 ==> v.spec_apply_entries(v.spec_reserves(), n).1,
    decreases n,
{
    if n > 0 {
        lemma_apply_own_prefix(v, n - 1);
        lemma_apply_own_slot(v, n - 1);
    }
}

/// Idempotent bulk re-synchronization: feeding a pool's own storage export
/// back through the storage-diff channel reproduces an equal export, and
/// reports that recognized keys were applied.
pub proof fn lemma_storage_sync_round_trip(v: V3View)
    requires
        v.wf(),
    ensures
        v.spec_apply_entries(v.spec_reserves(), v.spec_reserves().len() as int).0.spec_reserves()
            =~= v.spec_reserves(),
        v.spec_apply_entries(v.spec_reserves(), v.spec_reserves().len() as int).1,
{
    lemma_apply_own_prefix(v, v.spec_reserves().len() as int);
}

/// Strictness between adjacent ticks extends to every pair.
proof fn lemma_adjacent_sorted_pair(s: Seq<TickInfo>, a: int, b: int)
    requires
        forall|j: int|
            1 <= j < s.len() ==> (#[trigger] s[j]).index > s[j - 1].index && s[j].sqrt_price > s[j
                - 1].sqrt_price,
        0 <= a < b < s.len(),
    ensures
        s[a].index < s[b].index,
        s[a].sqrt_price < s[b].sqrt_price,
    decreases b - a,
{
    if b > a + 1 {
        lemma_adjacent_sorted_pair(s, a, b - 1);
    }
    assert(s[b].index > s[b - 1].index && s[b].sqrt_price > s[b - 1].sqrt_price);
}

/// The upward mirror of the exact-boundary law: a swap of token one sized
/// exactly to reach the next initialized tick above crosses exactly that
/// one tick, adds exactly its recorded liquidity-net, and touches nothing
/// further.
pub proof fn lemma_exact_boundary_swap_up(
    s: Seq<TickInfo>,
    pos: int,
    sq: u128,
    tick: i32,
    liq: u128,
    rem: u128,
)
    requires
        walk_pre(s, pos, tick, sq),
        pos < s.len(),
        rem > 0,
        liq as int * (s[pos].sqrt_price - sq) <= u128::MAX,
        rem == ceil_div(liq as int * (s[pos].sqrt_price - sq), SQRT_SCALE as int),
        liq as int * SQRT_SCALE as int <= u128::MAX,
        liq as int * SQRT_SCALE as int * (s[pos].sqrt_price - sq) <= u128::MAX,
        sq as int * s[pos].sqrt_price as int <= u128::MAX,
        0 <= liq + s[pos].liquidity_net <= u128::MAX,
    ensures
        walk_up_spec(s, pos, sq, tick, liq, rem, 0) == Ok::<V3SwapOutcome, SwapSimulationError>(
            V3SwapOutcome {
                amount_out: ((liq as int * SQRT_SCALE as int * (s[pos].sqrt_price - sq)) / (
                sq as int * s[pos].sqrt_price as int)) as u128,
                sqrt_price: s[pos].sqrt_price,
                tick: s[pos].index,
                liquidity: (liq + s[pos].liquidity_net) as u128,
                pos: (pos + 1) as usize,
            },
        ),
{
    let b = s[pos];
    let t = b.sqrt_price;
    assert(t >= sq && t >= 1);
    let on = liq as int * SQRT_SCALE as int * (t - sq);
    let od = sq as int * t as int;
    assert(on >= 0 && od >= 1) by (nonlinear_arith)
        requires
            liq >= 0,
            sq >= 1,
            t as int >= sq as int,
            on == liq as int * SQRT_SCALE as int * (t as int - sq as int),
            od == sq as int * t as int,
            liq as int * SQRT_SCALE as int >= 0,
    ;
    let out = on / od;
    vstd::arithmetic::div_mod::lemma_div_pos_is_pos(on, od);
    vstd::arithmetic::div_mod::lemma_div_is_ordered_by_denominator(on, 1, od);
    let tick2 = b.index;
    let liq2 = (liq + b.liquidity_net) as u128;
    assert(walk_up_spec(s, pos + 1, t, tick2, liq2, 0, out as u128) == Ok::<
        V3SwapOutcome,
        SwapSimulationError,
    >(
        V3SwapOutcome {
            amount_out: out as u128,
            sqrt_price: t,
            tick: tick2,
            liquidity: liq2,
            pos: (pos + 1) as usize,
        },
    ));
}

/// The exact-boundary law at the committed operation: a swap of token zero
/// whose fee-adjusted input is sized exactly to reach the next initialized
/// tick below commits a state that crossed exactly that one tick — price on
/// the boundary, tick just below it, active liquidity changed by exactly
/// that tick's recorded liquidity-net — and leaves the tick list untouched.
pub proof fn lemma_exact_boundary_swap_mut(v: V3View, amount_in: u128)
    requires
        v.wf(),
        first_above(v.ticks, v.tick, 0) >= 1,
        amount_in as int * ((1000000 - v.fee) as int) <= u128::MAX,
        ({
            let k = (1000000 - v.fee) as int;
            let a_eff = (amount_in as int * k) / 1000000;
            let pos = first_above(v.ticks, v.tick, 0);
            let b = v.ticks[pos - 1];
            &&& a_eff > 0
            &&& v.liquidity as int * SQRT_SCALE as int <= u128::MAX
            &&& v.liquidity as int * SQRT_SCALE as int * (v.sqrt_price - b.sqrt_price)
                <= u128::MAX
            &&& v.sqrt_price as int * b.sqrt_price as int <= u128::MAX
            &&& a_eff == ceil_div(
                v.liquidity as int * SQRT_SCALE as int * (v.sqrt_price - b.sqrt_price),
                v.sqrt_price as int * b.sqrt_price as int,
            )
            &&& v.liquidity as int * (v.sqrt_price - b.sqrt_price) <= u128::MAX
            &&& 0 <= v.liquidity - b.liquidity_net <= u128::MAX
        }),
    ensures
        ({
            let pos = first_above(v.ticks, v.tick, 0);
            let b = v.ticks[pos - 1];
            let out = (v.liquidity as int * (v.sqrt_price - b.sqrt_price)) / SQRT_SCALE as int;
            v.spec_simulate_swap_mut(v.token_a, amount_in) == (
                V3View {
                    sqrt_price: b.sqrt_price,
                    tick: (b.index - 1) as i32,
                    liquidity: (v.liquidity - b.liquidity_net) as u128,
                    ..v
                },
                Ok::<u128, SwapSimulationError>(out as u128),
            )
        }),
{
    let pos = first_above(v.ticks, v.tick, 0);
    let b = v.ticks[pos - 1];
    lemma_first_above_props(v.ticks, v.tick, 0);
    assert(walk_pre(v.ticks, pos, v.tick, v.sqrt_price));
    let k = (1000000 - v.fee) as int;
    vstd::arithmetic::div_mod::lemma_div_pos_is_pos(amount_in as int * k, 1000000);
    vstd::arithmetic::div_mod::lemma_div_is_ordered_by_denominator(
        amount_in as int * k,
        1,
        1000000,
    );
    let a_eff = ((amount_in as int * k) / 1000000) as u128;
    lemma_exact_boundary_swap(v.ticks, pos, v.sqrt_price, v.tick, v.liquidity, a_eff);
    let out = (v.liquidity as int * (v.sqrt_price - b.sqrt_price)) / SQRT_SCALE as int;
    assert(v.spec_simulate_swap_mut(v.token_a, amount_in).0 =~= (V3View {
        sqrt_price: b.sqrt_price,
        tick: (b.index - 1) as i32,
        liquidity: (v.liquidity - b.liquidity_net) as u128,
        ..v
    }));
}

} // verus!
