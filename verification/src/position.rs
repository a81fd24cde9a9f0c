//! Open positions and the thresholds at which risk is acted upon.

use crate::fixed::{Fixed128, PERMILL_UNIT, Permill};
use crate::primitives::{AccountId, Balance, Leverage, LiquidityPoolId, TradingPair};
use vstd::prelude::*;

verus! {

/// A leveraged position. Nothing in it changes between open and close.
#[derive(Clone, Copy, Debug, PartialEq, Eq, Structural)]
pub struct Position {
    /// The trader who opened the position.
    pub owner: AccountId,
    /// The pool that is the counterparty.
    pub pool: LiquidityPoolId,
    /// The currency held (`quote`) and the currency owed (`base`).
    pub pair: TradingPair,
    pub leverage: Leverage,
    /// Amount of the held currency; negative for a short position.
    pub leveraged_held: Fixed128,
    /// Amount of the owed currency; negative for a long position.
    pub leveraged_debits: Fixed128,
    /// Value in USD of `leveraged_held` at the time of opening.
    pub leveraged_held_in_usd: Fixed128,
    /// Accumulated swap rate of the pair at the time of opening.
    pub open_accumulated_swap_rate: Fixed128,
    /// Collateral committed to the position.
    pub open_margin: Balance,
}

/// The margin levels at which a margin call and a stop out become due.
#[derive(Clone, Copy, Debug, PartialEq, Eq, Structural)]
pub struct RiskThreshold {
    pub margin_call: Permill,
    pub stop_out: Permill,
}

/// Which of the two levels of a threshold is meant.
#[derive(Clone, Copy, Debug, PartialEq, Eq, Structural)]
pub enum RiskLevel {
    MarginCall,
    StopOut,
}

impl RiskThreshold {
    /// The stop out level is never above the margin call level.
    pub open spec fn wf(self) -> bool {
        &&& self.margin_call.wf()
        &&& self.stop_out.wf()
        &&& self.stop_out.parts <= self.margin_call.parts
    }

    /// The chosen level as a signed fixed-point ratio.
    pub open spec fn spec_level(self, level: RiskLevel) -> Fixed128 {
        match level {
            RiskLevel::MarginCall => Fixed128 {
                inner: (self.margin_call.parts * PERMILL_UNIT) as i128,
            },
            RiskLevel::StopOut => Fixed128 {
                inner: (self.stop_out.parts * PERMILL_UNIT) as i128,
            },
        }
    }

    /// A threshold with the given levels; `None` when the stop out level
    /// is above the margin call level.
    pub fn new(margin_call: Permill, stop_out: Permill) -> (r: Option<RiskThreshold>)
        ensures
            r == if stop_out.parts <= margin_call.parts && margin_call.wf() {
                Some(RiskThreshold { margin_call, stop_out })
            } else {
                None
            },
            r is Some ==> r->0.wf(),
    {
        if stop_out.parts <= margin_call.parts && margin_call.parts <= 1_000_000 {
            Some(RiskThreshold { margin_call, stop_out })
        } else {
            None
        }
    }

    /// The chosen level as a signed fixed-point ratio.
    pub fn level(&self, level: RiskLevel) -> (r: Fixed128)
        ensures
            r == self.spec_level(level),
    {
        let parts: u32 = match level {
            RiskLevel::MarginCall => self.margin_call.parts,
            RiskLevel::StopOut => self.stop_out.parts,
        };
        let wide: i128 = parts as i128;
        assert(wide * PERMILL_UNIT <= i128::MAX) by (nonlinear_arith)
            requires
                0 <= wide <= u32::MAX,
                PERMILL_UNIT == 1_000_000_000_000,
        ;
        assert(wide * PERMILL_UNIT >= 0) by (nonlinear_arith)
            requires
                0 <= wide,
                PERMILL_UNIT == 1_000_000_000_000,
        ;
        Fixed128 { inner: wide * 1_000_000_000_000i128 }
    }
}

} // verus!
