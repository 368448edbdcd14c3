//! A position: a quantity of one symbol at an average cost.
use crate::decimal::decimal_checked_mul;
use crate::money::Money;
use crate::quantity::Quantity;
use crate::symbol::{Symbol, SymbolView};
use vstd::prelude::*;

verus! {

/// A quantity of one symbol held at an average per-unit cost, in the holding's quote
/// currency.
#[derive(Debug)]
pub struct Holding {
    pub symbol: Symbol,
    pub quantity: Quantity,
    pub avg_cost: Money,
}

/// The view of a holding: symbol, quantity, average cost.
pub type HoldingView = (SymbolView, (int, nat), ((int, nat), Seq<char>));

impl View for Holding {
    type V = HoldingView;

    open spec fn view(&self) -> HoldingView {
        (self.symbol@, self.quantity@, self.avg_cost@)
    }
}

/// The cost basis of a holding: the average cost times the quantity, as
/// `rust_decimal` multiplies them.
pub open spec fn cost_basis_of(h: HoldingView) -> ((int, nat), Seq<char>) {
    (decimal_checked_mul(h.2.0, h.1)->0, h.2.1)
}

/// The cost basis fits in the decimal range: `rust_decimal` multiplies without overflow.
pub open spec fn cost_basis_fits(h: HoldingView) -> bool {
    decimal_checked_mul(h.2.0, h.1) is Some
}

impl Holding {
    pub fn new(symbol: Symbol, quantity: Quantity, avg_cost: Money) -> (r: Holding)
        ensures
            r@ == (symbol@, quantity@, avg_cost@),
    {
        Holding { symbol, quantity, avg_cost }
    }

    /// What was paid in all: the average cost times the quantity.
    pub fn cost_basis(&self) -> (r: Money)
        requires
            cost_basis_fits(self@),
        ensures
            r@ == cost_basis_of(self@),
    {
        self.avg_cost.mul_scalar(self.quantity.value())
    }

    /// `cost_basis` where it fits: `None` when the product overflows.
    pub fn try_cost_basis(&self) -> (r: Option<Money>)
        ensures
            r is None <==> !cost_basis_fits(self@),
            r matches Some(m) ==> m@ == cost_basis_of(self@),
    {
        if self.avg_cost.amount().checked_mul(&self.quantity.value()).is_none() {
            return None;
        }
        Some(self.cost_basis())
    }
}

impl Clone for Holding {
    fn clone(&self) -> (r: Self)
        ensures
            r@ == self@,
    {
        Holding { symbol: self.symbol.clone(), quantity: self.quantity, avg_cost: self.avg_cost }
    }
}

} // verus!
