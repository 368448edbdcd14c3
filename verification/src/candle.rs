//! Price bars (open, high, low, close).
use crate::decimal::{frac_lt, Decimal};
use crate::price::Price;
use crate::symbol::Symbol;
use crate::time::Timestamp;
use vstd::prelude::*;

verus! {

/// One bar of price history.
#[derive(Debug)]
pub struct Candle {
    pub symbol: Symbol,
    pub open: Price,
    pub high: Price,
    pub low: Price,
    pub close: Price,
    pub volume: Decimal,
    pub opened_at: Timestamp,
}

/// Why a bar is inconsistent.
#[derive(Debug)]
pub enum CandleError {
    /// The high is below the open, the close or the low.
    HighInvariantBroken { high: Decimal },
    /// The low is above the open, the close or the high.
    LowInvariantBroken { low: Decimal },
}

/// The high is at least the open, the close and the low.
pub open spec fn high_ok(c: &Candle) -> bool {
    let o = c.open@.0;
    let h = c.high@.0;
    let l = c.low@.0;
    let cl = c.close@.0;
    !frac_lt(h, o) && !frac_lt(h, cl) && !frac_lt(h, l)
}

/// The low is at most the open, the close and the high.
pub open spec fn low_ok(c: &Candle) -> bool {
    let o = c.open@.0;
    let h = c.high@.0;
    let l = c.low@.0;
    let cl = c.close@.0;
    !frac_lt(o, l) && !frac_lt(cl, l) && !frac_lt(h, l)
}

impl Candle {
    /// Checks that the high bounds the bar from above and the low from below; the high
    /// is checked first.
    pub fn validate(&self) -> (r: Result<(), CandleError>)
        ensures
            r is Ok <==> high_ok(self) && low_ok(self),
            !high_ok(self) ==> (r matches Err(CandleError::HighInvariantBroken { high }) && high@
                == self.high@.0),
            high_ok(self) && !low_ok(self) ==> (r matches Err(
                CandleError::LowInvariantBroken { low },
            ) && low@ == self.low@.0),
    {
        let o = self.open.money().amount();
        let h = self.high.money().amount();
        let l = self.low.money().amount();
        let c = self.close.money().amount();
        if h.lt(&o) || h.lt(&c) || h.lt(&l) {
            return Err(CandleError::HighInvariantBroken { high: h });
        }
        if o.lt(&l) || c.lt(&l) || h.lt(&l) {
            return Err(CandleError::LowInvariantBroken { low: l });
        }
        Ok(())
    }
}

} // verus!
