//! Percentages.
use crate::decimal::{decimal_checked_mul, Decimal};
use vstd::prelude::*;

verus! {

/// A percentage, such as `1.24` for 1.24%.
#[derive(Debug, Clone, Copy)]
pub struct Percent {
    value: Decimal,
}

impl View for Percent {
    type V = (int, nat);

    closed spec fn view(&self) -> (int, nat) {
        self.value@
    }
}

impl Percent {
    /// The percentage of a ratio: `ratio * 100`, so `0.0124` gives `1.2400`.
    pub fn from_ratio(ratio: Decimal) -> (r: Percent)
        requires
            decimal_checked_mul(ratio@, (100int, 0nat)) is Some,
        ensures
            r@ == decimal_checked_mul(ratio@, (100int, 0nat))->0,
    {
        let value = ratio.checked_mul(&Decimal::from_int(100)).unwrap();
        Percent { value }
    }

    /// `from_ratio` where the percentage fits: `None` when `ratio * 100` overflows.
    pub fn try_from_ratio(ratio: Decimal) -> (r: Option<Percent>)
        ensures
            r is None <==> decimal_checked_mul(ratio@, (100int, 0nat)) is None,
            r matches Some(p) ==> p@ == decimal_checked_mul(ratio@, (100int, 0nat))->0,
    {
        if ratio.checked_mul(&Decimal::from_int(100)).is_none() {
            return None;
        }
        Some(Percent::from_ratio(ratio))
    }

    /// A percentage given as such.
    pub fn from_value(v: Decimal) -> (r: Percent)
        ensures
            r@ == v@,
    {
        Percent { value: v }
    }

    pub fn value(&self) -> (r: Decimal)
        ensures
            r@ == self@,
    {
        self.value
    }
}

} // verus!
