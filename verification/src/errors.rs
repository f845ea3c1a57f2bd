//! Error kinds raised by the simulation core.

use vstd::prelude::*;

verus! {

/// Failure of an exact-arithmetic price or derivative computation.
#[derive(Clone, Copy, PartialEq, Eq, Structural, Debug)]
pub enum ArithmeticError {
    /// A conversion rate was requested against an empty reserve.
    ZeroDenominator,
    /// An intermediate product does not fit the working integer width.
    Overflow,
}

/// Failure to apply one decoded event to an instance.
#[derive(Clone, Copy, PartialEq, Eq, Structural, Debug)]
pub enum EventLogError {
    /// The event topic is not one the instance subscribes to.
    InvalidEventSignature,
    /// The topic is recognized but the payload has the wrong shape.
    MalformedPayload,
}

/// Failure of a hypothetical swap projection.
#[derive(Clone, Copy, PartialEq, Eq, Structural, Debug)]
pub enum SwapSimulationError {
    /// A reserve or the active liquidity needed by the swap is zero.
    ZeroLiquidity,
    /// The input amount drives an intermediate value out of range.
    AmountOutOfRange,
    /// The walk ran past the edge of the locally known tick set.
    TickRangeExhausted,
}

} // verus!
