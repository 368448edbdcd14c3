//! Prices.
use crate::money::Money;
use vstd::prelude::*;

verus! {

/// The price of one unit.
#[derive(Debug, Clone, Copy)]
pub struct Price {
    money: Money,
}

impl View for Price {
    type V = ((int, nat), Seq<char>);

    closed spec fn view(&self) -> ((int, nat), Seq<char>) {
        self.money@
    }
}

impl Price {
    pub fn new(money: Money) -> (r: Price)
        ensures
            r@ == money@,
    {
        Price { money }
    }

    /// The money this price holds.
    pub closed spec fn money_spec(&self) -> Money {
        self.money
    }

    #[verifier::when_used_as_spec(money_spec)]
    pub fn money(&self) -> (r: Money)
        ensures
            r@ == self@,
            r == self.money_spec(),
    {
        self.money
    }
}

} // verus!
