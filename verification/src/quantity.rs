//! Non-negative quantities of an asset.
use crate::decimal::{frac_eq, frac_lt, Decimal};
use vstd::prelude::*;
use vstd::std_specs::cmp::PartialEqSpecImpl;

verus! {

/// An amount of units held, never below zero.
#[derive(Debug, Clone, Copy)]
pub struct Quantity {
    value: Decimal,
}

/// Why a quantity was refused.
#[derive(Debug)]
pub enum QuantityError {
    /// The value is below zero.
    Negative(Decimal),
}

impl View for Quantity {
    type V = (int, nat);

    closed spec fn view(&self) -> (int, nat) {
        self.value@
    }
}

impl Quantity {
    #[verifier::type_invariant]
    spec fn inv(self) -> bool {
        self.value@.0 >= 0
    }

    /// A quantity is never below zero.
    pub fn check_nonnegative(&self)
        ensures
            self@.0 >= 0,
    {
        proof {
            use_type_invariant(self);
        }
    }

    /// Accepts any value that is not below zero.
    pub fn new(value: Decimal) -> (r: Result<Quantity, QuantityError>)
        ensures
            r is Ok <==> value@.0 >= 0,
            r matches Ok(q) ==> q@ == value@,
            r matches Err(QuantityError::Negative(v)) ==> v@ == value@,
    {
        if value.lt(&Decimal::zero()) {
            return Err(QuantityError::Negative(value));
        }
        proof {
            assert(!frac_lt(value@, (0int, 0nat)));
        }
        Ok(Quantity { value })
    }

    pub fn value(&self) -> (r: Decimal)
        ensures
            r@ == self@,
    {
        self.value
    }

    /// No units.
    pub fn zero() -> (r: Quantity)
        ensures
            r@ == (0int, 0nat),
    {
        Quantity { value: Decimal::zero() }
    }
}

impl PartialEq for Quantity {
    fn eq(&self, other: &Self) -> (r: bool) {
        self.value.eq_value(&other.value)
    }
}

impl PartialEqSpecImpl for Quantity {
    open spec fn obeys_eq_spec() -> bool {
        true
    }

    open spec fn eq_spec(&self, other: &Self) -> bool {
        frac_eq(self@, other@)
    }
}

} // verus!
