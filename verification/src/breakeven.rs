//! The break-even calculator in a chosen base currency: the price is converted into
//! the base with a snapshot of the exchange rates, then the averaging-down plan runs
//! entirely in the base.
use crate::averaging_down::{
    dec_views, plan_quantities_bound, plan_spec, try_plan, BreakevenPlan, PlanView,
};
use crate::decimal::{decimal_checked_div, Decimal};
use crate::fx::{FxRates, PairView};
use crate::money::{Currency, Money};
use crate::portfolio_calc::{convert_checked, convert_money, MoneyView};
use crate::quantity::Quantity;
use vstd::prelude::*;

verus! {

/// Why no plan could be made: the price had to be converted into the base currency and
/// no rate was known.
#[derive(Debug, Clone, Copy, PartialEq, Eq, Structural)]
pub enum BreakevenError {
    RateMissing,
}

/// A plan and the conversion that fed it.
#[derive(Debug)]
pub struct Outcome {
    pub plan: BreakevenPlan,
    pub current_price_base: Money,
    pub fx_rate_used: Option<Decimal>,
}

/// The view of an outcome: the plan, the price in the base currency and the rate applied.
pub type OutcomeView = (PlanView, MoneyView, Option<(int, nat)>);

impl View for Outcome {
    type V = OutcomeView;

    open spec fn view(&self) -> OutcomeView {
        (
            self.plan@,
            self.current_price_base@,
            match self.fx_rate_used {
                Some(r) => Some(r@),
                None => None,
            },
        )
    }
}

/// The outcome for a price already in the base currency, or converted into it with
/// `rates` (the rate reported being the converted amount over the unconverted one);
/// `RateMissing` where no rate is known; `None` where a step overflows or divides by zero.
pub open spec fn breakeven_spec(
    rates: Map<PairView, (int, nat)>,
    avg: MoneyView,
    q: (int, nat),
    price: MoneyView,
    base: Seq<char>,
    ns: Seq<(int, nat)>,
) -> Option<Result<OutcomeView, BreakevenError>> {
    if price.1 == base {
        match plan_spec(avg, q, price, ns) {
            None => None,
            Some(p) => Some(Ok((p, price, None))),
        }
    } else {
        match convert_checked(rates, price, base) {
            None => None,
            Some(None) => Some(Err(BreakevenError::RateMissing)),
            Some(Some(conv)) => match decimal_checked_div(conv.0, price.0) {
                None => None,
                Some(rate) => match plan_spec(avg, q, conv, ns) {
                    None => None,
                    Some(p) => Some(Ok((p, conv, Some(rate)))),
                },
            },
        }
    }
}

/// The plan in `base_currency`, or `None` where a step overflows or divides by zero
/// (such as a zero price that had to be converted).
pub fn try_plan_in_base(
    rates: &FxRates,
    avg_cost: Money,
    quantity: Quantity,
    current_price: Money,
    base_currency: Currency,
    targets_pct: &[Decimal],
) -> (r: Option<Result<Outcome, BreakevenError>>)
    ensures
        match r {
            None => breakeven_spec(
                rates@,
                avg_cost@,
                quantity@,
                current_price@,
                base_currency@,
                dec_views(targets_pct@),
            ) is None,
            Some(Ok(o)) => breakeven_spec(
                rates@,
                avg_cost@,
                quantity@,
                current_price@,
                base_currency@,
                dec_views(targets_pct@),
            ) == Some(Ok::<OutcomeView, BreakevenError>(o@)),
            Some(Err(e)) => breakeven_spec(
                rates@,
                avg_cost@,
                quantity@,
                current_price@,
                base_currency@,
                dec_views(targets_pct@),
            ) == Some(Err::<OutcomeView, BreakevenError>(e)),
        },
        r matches Some(Ok(o)) ==> plan_quantities_bound(avg_cost@, quantity@, o@.1, o@.0),
{
    if current_price.currency() == base_currency {
        let plan = try_plan(avg_cost, quantity, current_price, targets_pct)?;
        return Some(Ok(Outcome { plan, current_price_base: current_price, fx_rate_used: None }));
    }
    let converted = match convert_money(rates, current_price, base_currency)? {
        Some(c) => c,
        None => {
            return Some(Err(BreakevenError::RateMissing));
        },
    };
    let rate = converted.amount().checked_div(&current_price.amount())?;
    let plan = try_plan(avg_cost, quantity, converted, targets_pct)?;
    Some(Ok(Outcome { plan, current_price_base: converted, fx_rate_used: Some(rate) }))
}

/// The break-even plan in `base_currency`: a price in another currency is converted with
/// `rates` and the rate applied is reported; `RateMissing` when no rate is known.
pub fn plan(
    rates: &FxRates,
    avg_cost: Money,
    quantity: Quantity,
    current_price: Money,
    base_currency: Currency,
    targets_pct: &[Decimal],
) -> (r: Result<Outcome, BreakevenError>)
    requires
        breakeven_spec(
            rates@,
            avg_cost@,
            quantity@,
            current_price@,
            base_currency@,
            dec_views(targets_pct@),
        ) is Some,
    ensures
        match r {
            Ok(o) => breakeven_spec(
                rates@,
                avg_cost@,
                quantity@,
                current_price@,
                base_currency@,
                dec_views(targets_pct@),
            ) == Some(Ok::<OutcomeView, BreakevenError>(o@)),
            Err(e) => breakeven_spec(
                rates@,
                avg_cost@,
                quantity@,
                current_price@,
                base_currency@,
                dec_views(targets_pct@),
            ) == Some(Err::<OutcomeView, BreakevenError>(e)),
        },
        r matches Ok(o) ==> plan_quantities_bound(avg_cost@, quantity@, o@.1, o@.0),
{
    try_plan_in_base(rates, avg_cost, quantity, current_price, base_currency, targets_pct).unwrap()
}

} // verus!
