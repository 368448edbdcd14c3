//! Portfolio valuation: per-holding values in their own currency and totals in a
//! display currency.
use crate::decimal::{decimal_checked_add, decimal_checked_mul, decimal_checked_sub, Decimal};
use crate::fx::{canonical, canonicalize, FxRates, PairView};
use crate::holding::{Holding, HoldingView};
use crate::money::{Currency, Money};
use crate::portfolio::{holding_views, Portfolio};
use crate::quote::{QuoteMap, QuoteView};
use crate::symbol::{Symbol, SymbolView};
use vstd::prelude::*;

verus! {

/// The view of an amount of money.
pub type MoneyView = ((int, nat), Seq<char>);

/// The view of a holding's valuation: symbol, market value, cost basis, profit or loss.
pub type HoldingValuationView = (SymbolView, Option<MoneyView>, MoneyView, Option<MoneyView>);

/// The view of a valuation: per holding, then total value, total cost and total profit
/// or loss.
pub type PortfolioValuationView = (
    Seq<HoldingValuationView>,
    Option<MoneyView>,
    Option<MoneyView>,
    Option<MoneyView>,
);

/// One holding valued at the latest quote.
#[derive(Debug)]
pub struct HoldingValuation {
    pub symbol: Symbol,
    /// The quote price times the quantity, in the quote's currency; `None` without a quote.
    pub market_value: Option<Money>,
    /// The average cost times the quantity.
    pub cost_basis: Money,
    /// Market value minus cost basis, when both are in one currency.
    pub pnl_absolute: Option<Money>,
}

/// The view of an optional amount.
pub open spec fn opt_money_view(o: Option<Money>) -> Option<MoneyView> {
    match o {
        Some(m) => Some(m@),
        None => None,
    }
}

impl View for HoldingValuation {
    type V = HoldingValuationView;

    open spec fn view(&self) -> HoldingValuationView {
        (
            self.symbol@,
            opt_money_view(self.market_value),
            self.cost_basis@,
            opt_money_view(self.pnl_absolute),
        )
    }
}

/// A portfolio's valuation.
#[derive(Debug)]
pub struct PortfolioValuation {
    pub per_holding: Vec<HoldingValuation>,
    pub total_value: Option<Money>,
    pub total_cost: Option<Money>,
    pub total_pnl: Option<Money>,
}

/// The views of valuations.
pub open spec fn valuation_views(s: Seq<HoldingValuation>) -> Seq<HoldingValuationView> {
    s.map_values(|h: HoldingValuation| h@)
}

impl View for PortfolioValuation {
    type V = PortfolioValuationView;

    open spec fn view(&self) -> PortfolioValuationView {
        (
            valuation_views(self.per_holding@),
            opt_money_view(self.total_value),
            opt_money_view(self.total_cost),
            opt_money_view(self.total_pnl),
        )
    }
}

/// `Some(x)` for a product that did not overflow, as `rust_decimal` multiplies.
pub open spec fn times(a: (int, nat), b: (int, nat)) -> Option<(int, nat)> {
    decimal_checked_mul(a, b)
}

/// A holding valued at an optional quote; `None` where a product or difference
/// overflows the decimal range.
pub open spec fn value_holding_spec(h: HoldingView, q: Option<QuoteView>) -> Option<
    HoldingValuationView,
> {
    let mv: Option<Option<MoneyView>> = match q {
        None => Some(None),
        Some(q) => match times(q.1.0, h.1) {
            None => None,
            Some(a) => Some(Some((a, q.1.1))),
        },
    };
    match mv {
        None => None,
        Some(mv) => match times(h.2.0, h.1) {
            None => None,
            Some(c) => {
                let cb = (c, h.2.1);
                match mv {
                    Some(m) => if m.1 == cb.1 {
                        match decimal_checked_sub(m.0, cb.0) {
                            None => None,
                            Some(p) => Some((h.0, Some(m), cb, Some((p, cb.1)))),
                        }
                    } else {
                        Some((h.0, Some(m), cb, None))
                    },
                    None => Some((h.0, None, cb, None)),
                }
            },
        },
    }
}

/// The quote of a symbol, if the map has one.
pub open spec fn quote_for(quotes: Map<SymbolView, QuoteView>, s: SymbolView) -> Option<QuoteView> {
    if quotes.contains_key(s) {
        Some(quotes[s])
    } else {
        None
    }
}

/// All holdings valued in order; `None` where one overflows.
pub open spec fn value_all_spec(hs: Seq<HoldingView>, quotes: Map<SymbolView, QuoteView>) -> Option<
    Seq<HoldingValuationView>,
>
    decreases hs.len(),
{
    if hs.len() == 0 {
        Some(Seq::empty())
    } else {
        match value_all_spec(hs.drop_last(), quotes) {
            None => None,
            Some(v) => match value_holding_spec(hs.last(), quote_for(quotes, hs.last().0)) {
                None => None,
                Some(x) => Some(v.push(x)),
            },
        }
    }
}

/// The market values that are known, in order.
pub open spec fn market_values(vs: Seq<HoldingValuationView>) -> Seq<MoneyView>
    decreases vs.len(),
{
    if vs.len() == 0 {
        Seq::empty()
    } else {
        match vs.last().1 {
            Some(m) => market_values(vs.drop_last()).push(m),
            None => market_values(vs.drop_last()),
        }
    }
}

/// The cost bases, in order.
pub open spec fn cost_bases(vs: Seq<HoldingValuationView>) -> Seq<MoneyView> {
    vs.map_values(|v: HoldingValuationView| v.2)
}

/// Money converted into `target`: `Some(None)` without a rate, `None` on overflow.
pub open spec fn convert_checked(
    rates: Map<PairView, (int, nat)>,
    m: MoneyView,
    target: Seq<char>,
) -> Option<Option<MoneyView>> {
    let from = canonical(m.1);
    let to = canonical(target);
    if from == to {
        Some(Some((m.0, target)))
    } else if rates.contains_key((from, to)) {
        match times(m.0, rates[(from, to)]) {
            None => None,
            Some(a) => Some(Some((a, target))),
        }
    } else {
        Some(None)
    }
}

/// Adds the conversions of `rest` into `target` to `acc`, stopping with `Some(None)` at
/// the first amount that cannot be converted; `None` on overflow.
pub open spec fn fold_spec(
    acc: MoneyView,
    rest: Seq<MoneyView>,
    rates: Map<PairView, (int, nat)>,
    target: Seq<char>,
) -> Option<Option<MoneyView>>
    decreases rest.len(),
{
    if rest.len() == 0 {
        Some(Some(acc))
    } else {
        match convert_checked(rates, rest[0], target) {
            None => None,
            Some(None) => Some(None),
            Some(Some(c)) => match decimal_checked_add(acc.0, c.0) {
                None => None,
                Some(s) => fold_spec((s, target), rest.drop_first(), rates, target),
            },
        }
    }
}

/// The sum in `target` of `items`: `Some(None)` when there are none or one cannot be
/// converted; `None` on overflow.
pub open spec fn sum_in_spec(
    items: Seq<MoneyView>,
    rates: Map<PairView, (int, nat)>,
    target: Seq<char>,
) -> Option<Option<MoneyView>> {
    if items.len() == 0 {
        Some(None)
    } else {
        match convert_checked(rates, items[0], target) {
            None => None,
            Some(None) => Some(None),
            Some(Some(first)) => fold_spec(first, items.drop_first(), rates, target),
        }
    }
}

/// The whole valuation; `None` where an amount overflows.
pub open spec fn evaluate_spec(
    hs: Seq<HoldingView>,
    quotes: Map<SymbolView, QuoteView>,
    rates: Map<PairView, (int, nat)>,
    display: Seq<char>,
) -> Option<PortfolioValuationView> {
    match value_all_spec(hs, quotes) {
        None => None,
        Some(per) => match sum_in_spec(market_values(per), rates, display) {
            None => None,
            Some(tv) => match sum_in_spec(cost_bases(per), rates, display) {
                None => None,
                Some(tc) => match (tv, tc) {
                    (Some(v), Some(c)) => match decimal_checked_sub(v.0, c.0) {
                        None => None,
                        Some(p) => Some((per, tv, tc, Some((p, v.1)))),
                    },
                    _ => Some((per, tv, tc, None)),
                },
            },
        },
    }
}

/// `m` converted into `target` as `FxRates::convert` does it: `Some(None)` when no rate
/// is known, and `None` (instead of a panic) where the product overflows.
pub fn convert_money(fx: &FxRates, m: Money, target: Currency) -> (r: Option<Option<Money>>)
    ensures
        match r {
            None => convert_checked(fx@, m@, target@) is None,
            Some(None) => convert_checked(fx@, m@, target@) == Some(None::<MoneyView>),
            Some(Some(x)) => convert_checked(fx@, m@, target@) == Some(Some(x@)),
        },
{
    let from = canonicalize(m.currency());
    let to = canonicalize(target);
    if from == to {
        return Some(Some(Money::new(m.amount(), target)));
    }
    match fx.rate(&from, &to) {
        None => Some(None),
        Some(rate) => match m.amount().checked_mul(&rate) {
            None => None,
            Some(a) => Some(Some(Money::new(a, target))),
        },
    }
}

/// Converts every item into `target` and sums; `Some(None)` when `items` is empty or an
/// item cannot be converted, `None` on overflow.
fn sum_in(items: &Vec<Money>, fx: &FxRates, target: Currency) -> (r: Option<Option<Money>>)
    ensures
        match r {
            None => sum_in_spec(items@.map_values(|m: Money| m@), fx@, target@) is None,
            Some(None) => sum_in_spec(items@.map_values(|m: Money| m@), fx@, target@) == Some(
                None::<MoneyView>,
            ),
            Some(Some(x)) => sum_in_spec(items@.map_values(|m: Money| m@), fx@, target@) == Some(
                Some(x@),
            ),
        },
{
    let ghost views = items@.map_values(|m: Money| m@);
    if items.len() == 0 {
        return Some(None);
    }
    let first = match convert_money(fx, items[0], target) {
        None => {
            return None;
        },
        Some(None) => {
            return Some(None);
        },
        Some(Some(x)) => x,
    };
    let mut acc = first;
    let mut i: usize = 1;
    proof {
        assert(views.drop_first() =~= views.skip(1));
    }
    while i < items.len()
        invariant
            1 <= i <= items@.len(),
            views == items@.map_values(|m: Money| m@),
            acc@.1 == target@,
            sum_in_spec(views, fx@, target@) == fold_spec(acc@, views.skip(i as int), fx@, target@),
        decreases items@.len() - i,
    {
        proof {
            assert(views.skip(i as int)[0] == items@[i as int]@);
            assert(views.skip(i as int).drop_first() =~= views.skip(i + 1));
        }
        let c = match convert_money(fx, items[i], target) {
            None => {
                return None;
            },
            Some(None) => {
                return Some(None);
            },
            Some(Some(x)) => x,
        };
        let s = match acc.amount().checked_add(&c.amount()) {
            None => {
                return None;
            },
            Some(s) => s,
        };
        acc = Money::new(s, target);
        i = i + 1;
    }
    proof {
        assert(views.skip(i as int) =~= Seq::<MoneyView>::empty());
    }
    Some(Some(acc))
}

/// One holding valued at an optional quote; `None` on overflow.
fn value_holding(h: &Holding, quote: Option<&crate::quote::Quote>) -> (r: Option<HoldingValuation>)
    ensures
        match r {
            None => value_holding_spec(h@, match quote {
                Some(q) => Some(q@),
                None => None,
            }) is None,
            Some(v) => value_holding_spec(h@, match quote {
                Some(q) => Some(q@),
                None => None,
            }) == Some(v@),
        },
{
    let qty = h.quantity.value();
    let market_value = match quote {
        None => None,
        Some(q) => match q.price.money().amount().checked_mul(&qty) {
            None => {
                return None;
            },
            Some(a) => Some(Money::new(a, q.price.money().currency())),
        },
    };
    let cost = match h.avg_cost.amount().checked_mul(&qty) {
        None => {
            return None;
        },
        Some(c) => c,
    };
    let cost_basis = Money::new(cost, h.avg_cost.currency());
    let pnl_absolute = match market_value {
        Some(mv) => if mv.currency() == cost_basis.currency() {
            match mv.amount().checked_sub(&cost_basis.amount()) {
                None => {
                    return None;
                },
                Some(p) => Some(Money::new(p, cost_basis.currency())),
            }
        } else {
            None
        },
        None => None,
    };
    Some(HoldingValuation { symbol: h.symbol.clone(), market_value, cost_basis, pnl_absolute })
}

/// Values the portfolio, or `None` where an amount overflows the decimal range.
pub fn try_evaluate(
    portfolio: &Portfolio,
    quotes_by_symbol: &QuoteMap,
    fx_rates: &FxRates,
    display_currency: Currency,
) -> (r: Option<PortfolioValuation>)
    ensures
        match r {
            None => evaluate_spec(portfolio@, quotes_by_symbol@, fx_rates@, display_currency@) is None,
            Some(v) => evaluate_spec(portfolio@, quotes_by_symbol@, fx_rates@, display_currency@)
                == Some(v@),
        },
{
    let holdings = portfolio.holdings();
    let mut per_holding: Vec<HoldingValuation> = Vec::new();
    let mut values: Vec<Money> = Vec::new();
    let mut costs: Vec<Money> = Vec::new();
    let mut i: usize = 0;
    while i < holdings.len()
        invariant
            i <= holdings@.len(),
            holding_views(holdings@) == portfolio@,
            per_holding@.len() == i,
            costs@.len() == i,
            value_all_spec(portfolio@.take(i as int), quotes_by_symbol@) == Some(
                valuation_views(per_holding@),
            ),
            values@.map_values(|m: Money| m@) == market_values(valuation_views(per_holding@)),
            costs@.map_values(|m: Money| m@) == cost_bases(valuation_views(per_holding@)),
        decreases holdings@.len() - i,
    {
        let h = &holdings[i];
        let q = quotes_by_symbol.get(&h.symbol);
        let v = match value_holding(h, q) {
            None => {
                proof {
                    assert(portfolio@.take(i + 1).drop_last() =~= portfolio@.take(i as int));
                    assert(portfolio@.take(i + 1).last() == h@);
                    lemma_value_all_none(portfolio@, quotes_by_symbol@, (i + 1) as int);
                }
                return None;
            },
            Some(v) => v,
        };
        let ghost old_per = valuation_views(per_holding@);
        let ghost old_costs = costs@;
        match v.market_value {
            Some(m) => values.push(m),
            None => {},
        }
        costs.push(v.cost_basis);
        per_holding.push(v);
        proof {
            assert(portfolio@.take(i + 1).drop_last() =~= portfolio@.take(i as int));
            assert(portfolio@.take(i + 1).last() == h@);
            assert(valuation_views(per_holding@) =~= old_per.push(v@));
            assert(valuation_views(per_holding@).drop_last() =~= old_per);
            assert(values@.map_values(|m: Money| m@) =~= market_values(
                valuation_views(per_holding@),
            ));
            assert forall|j: int| 0 <= j < costs@.len() implies #[trigger] costs@[j]@ == valuation_views(per_holding@)[j].2 by {
                if j < i {
                    assert(costs@[j] == old_costs[j]);
                    assert(old_costs[j]@ == old_costs.map_values(|m: Money| m@)[j]);
                    assert(old_per[j].2 == cost_bases(old_per)[j]);
                }
            }
            assert(costs@.map_values(|m: Money| m@) =~= cost_bases(valuation_views(per_holding@)));
        }
        i = i + 1;
    }
    proof {
        assert(portfolio@.take(i as int) =~= portfolio@);
    }
    let total_value = match sum_in(&values, fx_rates, display_currency) {
        None => {
            return None;
        },
        Some(t) => t,
    };
    let total_cost = match sum_in(&costs, fx_rates, display_currency) {
        None => {
            return None;
        },
        Some(t) => t,
    };
    let total_pnl = match (total_value, total_cost) {
        (Some(v), Some(c)) => match v.amount().checked_sub(&c.amount()) {
            None => {
                return None;
            },
            Some(p) => Some(Money::new(p, v.currency())),
        },
        _ => None,
    };
    Some(PortfolioValuation { per_holding, total_value, total_cost, total_pnl })
}

/// Once one holding overflows, so does the whole list.
proof fn lemma_value_all_none(hs: Seq<HoldingView>, quotes: Map<SymbolView, QuoteView>, n: int)
    requires
        1 <= n <= hs.len(),
        value_all_spec(hs.take(n - 1), quotes) is Some,
        value_holding_spec(hs[n - 1], quote_for(quotes, hs[n - 1].0)) is None,
    ensures
        value_all_spec(hs, quotes) is None,
    decreases hs.len() - n,
{
    assert(hs.take(n).drop_last() =~= hs.take(n - 1));
    assert(value_all_spec(hs.take(n), quotes) is None);
    lemma_value_all_none_extend(hs, quotes, n);
}

/// A prefix that overflows makes every longer prefix overflow.
proof fn lemma_value_all_none_extend(hs: Seq<HoldingView>, quotes: Map<SymbolView, QuoteView>, n: int)
    requires
        0 <= n <= hs.len(),
        value_all_spec(hs.take(n), quotes) is None,
    ensures
        value_all_spec(hs, quotes) is None,
    decreases hs.len() - n,
{
    if n == hs.len() {
        assert(hs.take(n) =~= hs);
    } else {
        assert(hs.take(n + 1).drop_last() =~= hs.take(n));
        lemma_value_all_none_extend(hs, quotes, n + 1);
    }
}

/// Values the portfolio. Each holding's market value and cost basis stay in its own
/// currency; the totals are summed in `display_currency` through `fx_rates`, and a total
/// is `None` when one of its amounts cannot be converted or there is none. The profit or
/// loss total is the value total minus the cost total.
pub fn evaluate(
    portfolio: &Portfolio,
    quotes_by_symbol: &QuoteMap,
    fx_rates: &FxRates,
    display_currency: Currency,
) -> (r: PortfolioValuation)
    requires
        evaluate_spec(portfolio@, quotes_by_symbol@, fx_rates@, display_currency@) is Some,
    ensures
        evaluate_spec(portfolio@, quotes_by_symbol@, fx_rates@, display_currency@) == Some(r@),
{
    try_evaluate(portfolio, quotes_by_symbol, fx_rates, display_currency).unwrap()
}


/// What one holding's valuation is, from the holding and its quote: the market value is
/// the quote price times the quantity, in the quote's currency (none without a quote);
/// the cost basis is the average cost times the quantity, in the cost's currency; and
/// the profit or loss, present exactly when there is a market value in the cost's
/// currency, is the market value minus the cost basis (`rust_decimal`'s difference of
/// the two amounts, value first), in that currency.
pub proof fn lemma_holding_valuation(h: HoldingView, q: Option<QuoteView>)
    requires
        value_holding_spec(h, q) is Some,
    ensures
        ({
            let v = value_holding_spec(h, q)->0;
            &&& v.0 == h.0
            &&& v.2 == (decimal_checked_mul(h.2.0, h.1)->0, h.2.1)
            &&& match q {
                None => v.1 is None,
                Some(qv) => v.1 == Some((decimal_checked_mul(qv.1.0, h.1)->0, qv.1.1)),
            }
            &&& v.3 is Some <==> (v.1 matches Some(m) && m.1 == v.2.1)
            &&& v.3 matches Some(pnl) ==> pnl == (
                decimal_checked_sub((v.1->0).0, v.2.0)->0,
                v.2.1,
            )
        }),
{
}

/// The valuation of a portfolio holds, for each holding in order, that holding valued
/// at the quote of its symbol (`lemma_holding_valuation` says what that is), and its
/// profit or loss total, present exactly when both other totals are, is the value total
/// minus the cost total, in the display currency.
pub proof fn lemma_valuation_parts(
    hs: Seq<HoldingView>,
    quotes: Map<SymbolView, QuoteView>,
    rates: Map<PairView, (int, nat)>,
    display: Seq<char>,
)
    requires
        evaluate_spec(hs, quotes, rates, display) is Some,
    ensures
        ({
            let v = evaluate_spec(hs, quotes, rates, display)->0;
            &&& v.0.len() == hs.len()
            &&& forall|i: int|
                0 <= i < hs.len() ==> value_holding_spec(hs[i], quote_for(quotes, hs[i].0))
                    == Some(#[trigger] v.0[i])
            &&& v.3 is Some <==> (v.1 is Some && v.2 is Some)
            &&& v.3 matches Some(p) ==> p == (
                decimal_checked_sub((v.1->0).0, (v.2->0).0)->0,
                (v.1->0).1,
            )
        }),
{
    lemma_value_all_at(hs, quotes);
}

/// Every holding is valued at its own quote, in order.
proof fn lemma_value_all_at(hs: Seq<HoldingView>, quotes: Map<SymbolView, QuoteView>)
    requires
        value_all_spec(hs, quotes) is Some,
    ensures
        (value_all_spec(hs, quotes)->0).len() == hs.len(),
        forall|i: int|
            0 <= i < hs.len() ==> value_holding_spec(hs[i], quote_for(quotes, hs[i].0)) == Some(
                #[trigger] (value_all_spec(hs, quotes)->0)[i],
            ),
    decreases hs.len(),
{
    if hs.len() > 0 {
        let init = hs.drop_last();
        lemma_value_all_at(init, quotes);
        assert forall|i: int| 0 <= i < hs.len() implies value_holding_spec(
            hs[i],
            quote_for(quotes, hs[i].0),
        ) == Some(#[trigger] (value_all_spec(hs, quotes)->0)[i]) by {
            if i < hs.len() - 1 {
                assert(init[i] == hs[i]);
            }
        }
    }
}

} // verus!
