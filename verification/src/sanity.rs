//! Outlier check for incoming quotes.
use crate::decimal::{decimal_checked_div, decimal_checked_sub, frac_abs, frac_lt, Decimal};
use crate::quote::Quote;
use vstd::prelude::*;

verus! {

/// Whether a candidate price is accepted after a previous accepted price (`None` where
/// `rust_decimal` overflows): the first quote and a previous price of zero are always
/// accepted; otherwise `|candidate - previous| / previous` must be below the threshold.
pub open spec fn sane_spec(previous: Option<(int, nat)>, candidate: (int, nat), threshold: (
    int,
    nat,
)) -> Option<bool> {
    match previous {
        None => Some(true),
        Some(p) => if p.0 == 0 {
            Some(true)
        } else {
            match decimal_checked_sub(candidate, p) {
                None => None,
                Some(d) => match decimal_checked_div(frac_abs(d), p) {
                    None => None,
                    Some(ratio) => Some(frac_lt(ratio, threshold)),
                },
            }
        },
    }
}

/// The previous price of an optional quote.
pub open spec fn previous_price(previous: Option<&Quote>) -> Option<(int, nat)> {
    match previous {
        Some(q) => Some(q.price@.0),
        None => None,
    }
}

/// The outlier check, or `None` where the ratio overflows the decimal range.
pub fn try_is_sane(previous: Option<&Quote>, candidate: &Quote, jump_threshold: Decimal) -> (r:
    Option<bool>)
    ensures
        r == sane_spec(previous_price(previous), candidate.price@.0, jump_threshold@),
{
    let prev = match previous {
        Some(q) => q,
        None => {
            return Some(true);
        },
    };
    let p = prev.price.money().amount();
    let c = candidate.price.money().amount();
    if p.is_zero() {
        return Some(true);
    }
    let d = match c.checked_sub(&p) {
        Some(d) => d,
        None => {
            return None;
        },
    };
    let ratio = match d.abs().checked_div(&p) {
        Some(x) => x,
        None => {
            return None;
        },
    };
    Some(ratio.lt(&jump_threshold))
}

/// Should the new quote be accepted? The first quote always is; a later one is refused
/// when the price moved by `jump_threshold` (a ratio: 10 means 1000%) or more.
pub fn is_sane(previous: Option<&Quote>, candidate: &Quote, jump_threshold: Decimal) -> (r: bool)
    requires
        sane_spec(previous_price(previous), candidate.price@.0, jump_threshold@) is Some,
    ensures
        r == sane_spec(previous_price(previous), candidate.price@.0, jump_threshold@)->0,
{
    try_is_sane(previous, candidate, jump_threshold).unwrap()
}

/// The first quote is always accepted.
pub proof fn lemma_first_quote_accepted(candidate: (int, nat), threshold: (int, nat))
    ensures
        sane_spec(None, candidate, threshold) == Some(true),
{
}

} // verus!
