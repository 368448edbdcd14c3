//! Break-even and averaging-down calculations.
//!
//! Given an average cost `A`, a quantity held `q` and a current price `P`, all in one
//! base currency, this gives the percentage `P` must rise to reach `A` while underwater,
//! and, for each target reduction `N%`, the extra quantity and money needed at `P` to
//! pull the average down to `A * (1 - N/100)`. The caller is expected to supply `A > 0`,
//! `P > 0`, `q > 0` and one currency for `A` and `P`.
use crate::decimal::{
    decimal_checked_div, decimal_checked_mul, decimal_checked_sub, frac_eq, frac_ge_int, frac_lt,
    frac_mul, frac_sub, lemma_pow10_positive, lemma_quot_near_congruent,
    lemma_sub_of_smaller_nonneg, opt_view, pow10, quot_below_finest, quot_ge_int, quot_near,
    Decimal,
};
use crate::money::Money;
use crate::portfolio_calc::MoneyView;
use crate::quantity::Quantity;
use vstd::prelude::*;

verus! {

/// One target reduction and what reaching it takes.
#[derive(Debug)]
pub struct AveragingDownRow {
    pub target_pct: Decimal,
    pub target_avg: Money,
    pub add_quantity: Quantity,
    pub add_invest: Money,
    pub new_breakeven_gap_pct: Decimal,
    pub feasible: bool,
}

/// The view of a row: target percentage, target average, quantity to add, money to add,
/// the break-even gap afterwards, and whether the target can be reached.
pub type RowView = ((int, nat), MoneyView, (int, nat), MoneyView, (int, nat), bool);

impl View for AveragingDownRow {
    type V = RowView;

    open spec fn view(&self) -> RowView {
        (
            self.target_pct@,
            self.target_avg@,
            self.add_quantity@,
            self.add_invest@,
            self.new_breakeven_gap_pct@,
            self.feasible,
        )
    }
}

/// The whole plan.
#[derive(Debug)]
pub struct BreakevenPlan {
    pub is_underwater: bool,
    pub breakeven_gap_pct: Option<Decimal>,
    pub current_return_pct: Option<Decimal>,
    pub max_reduction_pct: Decimal,
    pub rows: Vec<AveragingDownRow>,
}

/// The view of a plan.
pub type PlanView = (bool, Option<(int, nat)>, Option<(int, nat)>, (int, nat), Seq<RowView>);

/// The views of rows.
pub open spec fn row_views(s: Seq<AveragingDownRow>) -> Seq<RowView> {
    s.map_values(|r: AveragingDownRow| r@)
}

impl View for BreakevenPlan {
    type V = PlanView;

    open spec fn view(&self) -> PlanView {
        (
            self.is_underwater,
            opt_view(self.breakeven_gap_pct),
            opt_view(self.current_return_pct),
            self.max_reduction_pct@,
            row_views(self.rows@),
        )
    }
}

/// One, one hundred and zero as decimals.
pub open spec fn one_v() -> (int, nat) {
    (1, 0)
}

pub open spec fn hundred_v() -> (int, nat) {
    (100, 0)
}

pub open spec fn zero_v() -> (int, nat) {
    (0, 0)
}

/// `(x / y - 1) * 100` as `rust_decimal` computes it; `None` on overflow or a zero `y`.
pub open spec fn gap_spec(x: (int, nat), y: (int, nat)) -> Option<(int, nat)> {
    match decimal_checked_div(x, y) {
        None => None,
        Some(q) => match decimal_checked_sub(q, one_v()) {
            None => None,
            Some(d) => decimal_checked_mul(d, hundred_v()),
        },
    }
}

/// The target average `a * (1 - n / 100)`.
pub open spec fn target_spec(a: (int, nat), n: (int, nat)) -> Option<(int, nat)> {
    match decimal_checked_div(n, hundred_v()) {
        None => None,
        Some(nh) => match decimal_checked_sub(one_v(), nh) {
            None => None,
            Some(f) => decimal_checked_mul(a, f),
        },
    }
}

/// The extra quantity `q * (a - t) / (t - p)`.
pub open spec fn add_quantity_spec(a: (int, nat), p: (int, nat), q: (int, nat), t: (int, nat)) -> Option<
    (int, nat),
> {
    match decimal_checked_sub(a, t) {
        None => None,
        Some(d1) => match decimal_checked_mul(q, d1) {
            None => None,
            Some(prod) => match decimal_checked_sub(t, p) {
                None => None,
                Some(d2) => decimal_checked_div(prod, d2),
            },
        },
    }
}

/// The numerator `q * (a - t)` of the extra quantity, as `rust_decimal` computes it.
pub open spec fn quantity_numerator(a: (int, nat), q: (int, nat), t: (int, nat)) -> (int, nat) {
    decimal_checked_mul(q, decimal_checked_sub(a, t)->0)->0
}

/// The denominator `t - p` of the extra quantity, as `rust_decimal` computes it.
pub open spec fn quantity_denominator(p: (int, nat), t: (int, nat)) -> (int, nat) {
    decimal_checked_sub(t, p)->0
}

/// The three steps before the division are exact: `a - t`, `q * (a - t)` and `t - p`
/// come out as the exact values (as they do whenever they fit without rounding).
pub open spec fn quantity_steps_exact(a: (int, nat), q: (int, nat), p: (int, nat), t: (int, nat)) -> bool {
    &&& frac_eq(decimal_checked_sub(a, t)->0, frac_sub(a, t))
    &&& frac_eq(quantity_numerator(a, q, t), frac_mul(q, frac_sub(a, t)))
    &&& frac_eq(quantity_denominator(p, t), frac_sub(t, p))
}

/// What a feasible row's extra quantity `x` is. Buying `E = q * (a - t) / (t - p)` at the
/// price `p` brings the average exactly to the target `t`, since
/// `(q * a + E * p) / (q + E) = t` is `E * (t - p) = q * (a - t)`; `x` is that quotient
/// rounded to its own last place, so the average it gives differs from `t` only by that
/// rounding. In full: `x` is not negative; it is the computed numerator over the computed
/// denominator rounded to its last place; it is zero only where that quotient rounds to
/// zero at 28 places; and when the steps before the division are exact, it is `E` rounded
/// to its last place.
pub open spec fn row_quantity_bound(a: (int, nat), q: (int, nat), p: (int, nat), w: RowView) -> bool {
    let t = w.1.0;
    let x = w.2;
    let num = quantity_numerator(a, q, t);
    let den = quantity_denominator(p, t);
    w.5 ==> {
        &&& x.0 >= 0
        &&& quot_near(x, num, den)
        &&& x.0 > 0 || quot_below_finest(num, den)
        &&& quantity_steps_exact(a, q, p, t) ==> quot_near(x, frac_mul(q, frac_sub(a, t)), frac_sub(t, p))
    }
}

/// The row for target `n`; `None` where the computation overflows or divides by zero.
pub open spec fn row_spec(
    a: (int, nat),
    q: (int, nat),
    price: MoneyView,
    base: Seq<char>,
    underwater: bool,
    n: (int, nat),
) -> Option<RowView> {
    let p = price.0;
    match target_spec(a, n) {
        None => None,
        Some(t) => if underwater && frac_lt(p, t) && frac_lt(t, a) {
            match add_quantity_spec(a, p, q, t) {
                None => None,
                Some(x) => match decimal_checked_mul(p, x) {
                    None => None,
                    Some(invest) => match gap_spec(t, p) {
                        None => None,
                        Some(g) => Some((n, (t, base), x, (invest, price.1), g, true)),
                    },
                },
            }
        } else {
            Some((n, (t, base), zero_v(), (zero_v(), base), zero_v(), false))
        },
    }
}

/// The rows for all targets, in order.
pub open spec fn rows_spec(
    a: (int, nat),
    q: (int, nat),
    price: MoneyView,
    base: Seq<char>,
    underwater: bool,
    ns: Seq<(int, nat)>,
) -> Option<Seq<RowView>>
    decreases ns.len(),
{
    if ns.len() == 0 {
        Some(Seq::empty())
    } else {
        match rows_spec(a, q, price, base, underwater, ns.drop_last()) {
            None => None,
            Some(rs) => match row_spec(a, q, price, base, underwater, ns.last()) {
                None => None,
                Some(r) => Some(rs.push(r)),
            },
        }
    }
}

/// The plan for average cost `avg`, quantity `q`, price `price` and targets `ns`;
/// `None` where the computation overflows or divides by zero.
pub open spec fn plan_spec(avg: MoneyView, q: (int, nat), price: MoneyView, ns: Seq<(int, nat)>) -> Option<
    PlanView,
> {
    let a = avg.0;
    let p = price.0;
    let underwater = frac_lt(p, a);
    let gap = if underwater {
        gap_spec(a, p)
    } else {
        Some(zero_v())
    };
    let ret = if underwater {
        Some(zero_v())
    } else {
        gap_spec(p, a)
    };
    let maxr = match decimal_checked_sub(a, p) {
        None => None,
        Some(d) => match decimal_checked_div(d, a) {
            None => None,
            Some(r) => decimal_checked_mul(r, hundred_v()),
        },
    };
    match (gap, ret, maxr, rows_spec(a, q, price, avg.1, underwater, ns)) {
        (Some(g), Some(c), Some(m), Some(rows)) => Some(
            (
                underwater,
                if underwater {
                    Some(g)
                } else {
                    None
                },
                if underwater {
                    None
                } else {
                    Some(c)
                },
                m,
                rows,
            ),
        ),
        _ => None,
    }
}

/// `(x / y - 1) * 100`, or `None` on overflow or a zero `y`.
fn gap(x: &Decimal, y: &Decimal) -> (r: Option<Decimal>)
    ensures
        opt_view(r) == gap_spec(x@, y@),
{
    let q = x.checked_div(y)?;
    let d = q.checked_sub(&Decimal::one())?;
    d.checked_mul(&Decimal::from_int(100))
}

/// A non-negative product over a positive factor stays non-negative.
proof fn lemma_nonneg_quotient(prod: (int, nat), d2: (int, nat))
    requires
        prod.0 >= 0,
        d2.0 > 0,
    ensures
        quot_ge_int(prod, d2, 0),
{
    lemma_pow10_positive(d2.1);
    assert(prod.0 * pow10(d2.1) >= 0) by (nonlinear_arith)
        requires
            prod.0 >= 0,
            pow10(d2.1) > 0,
    ;
}

/// The row for target `n`, or `None` where it overflows or divides by zero.
fn row(
    avg_cost: &Money,
    quantity: &Quantity,
    current_price: &Money,
    underwater: bool,
    n: Decimal,
) -> (r: Option<AveragingDownRow>)
    ensures
        match r {
            None => row_spec(avg_cost@.0, quantity@, current_price@, avg_cost@.1, underwater, n@) is None,
            Some(x) => row_spec(avg_cost@.0, quantity@, current_price@, avg_cost@.1, underwater, n@)
                == Some(x@),
        },
        r matches Some(x) ==> row_quantity_bound(avg_cost@.0, quantity@, current_price@.0, x@),
{
    let a = avg_cost.amount();
    let p = current_price.amount();
    let q = quantity.value();
    let base = avg_cost.currency();
    let nh = n.checked_div(&Decimal::from_int(100))?;
    let f = Decimal::one().checked_sub(&nh)?;
    let t = a.checked_mul(&f)?;
    let target_avg = Money::new(t, base);
    let feasible = underwater && p.lt(&t) && t.lt(&a);
    if feasible {
        let d1 = a.checked_sub(&t)?;
        let prod = q.checked_mul(&d1)?;
        let d2 = t.checked_sub(&p)?;
        let x = prod.checked_div(&d2)?;
        quantity.check_nonnegative();
        proof {
            lemma_sub_of_smaller_nonneg(a@, t@);
            assert(frac_ge_int(d1@, 0));
            assert(d1@.0 >= 0);
            assert(q@.0 * d1@.0 >= 0) by (nonlinear_arith)
                requires
                    q@.0 >= 0,
                    d1@.0 >= 0,
            ;
            assert(frac_ge_int(frac_mul(q@, d1@), 0));
            assert(frac_ge_int(prod@, 0));
            lemma_sub_of_smaller_nonneg(t@, p@);
            assert(frac_ge_int(d2@, 0));
            assert(d2@.0 != 0);
            lemma_nonneg_quotient(prod@, d2@);
            assert(frac_ge_int(x@, 0));
            if quantity_steps_exact(a@, q@, p@, t@) {
                lemma_quot_near_congruent(
                    x@,
                    prod@,
                    d2@,
                    frac_mul(q@, frac_sub(a@, t@)),
                    frac_sub(t@, p@),
                );
            }
        }
        let add_quantity = match Quantity::new(x) {
            Ok(aq) => aq,
            Err(_) => {
                proof {
                    assert(false);
                }
                return None;
            },
        };
        let invest = p.checked_mul(&x)?;
        let add_invest = Money::new(invest, current_price.currency());
        let new_gap = gap(&t, &p)?;
        Some(
            AveragingDownRow {
                target_pct: n,
                target_avg,
                add_quantity,
                add_invest,
                new_breakeven_gap_pct: new_gap,
                feasible: true,
            },
        )
    } else {
        Some(
            AveragingDownRow {
                target_pct: n,
                target_avg,
                add_quantity: Quantity::zero(),
                add_invest: Money::new(Decimal::zero(), base),
                new_breakeven_gap_pct: Decimal::zero(),
                feasible: false,
            },
        )
    }
}

/// Every feasible row of a plan adds the quantity that brings the average to its target,
/// up to rounding (`row_quantity_bound`).
pub open spec fn plan_quantities_bound(avg: MoneyView, q: (int, nat), price: MoneyView, pv: PlanView) -> bool {
    forall|i: int| 0 <= i < pv.4.len() ==> row_quantity_bound(avg.0, q, price.0, #[trigger] pv.4[i])
}

/// The views of decimals.
pub open spec fn dec_views(s: Seq<Decimal>) -> Seq<(int, nat)> {
    s.map_values(|d: Decimal| d@)
}

/// The plan, or `None` where the computation overflows or divides by zero (such as a
/// zero price while underwater).
pub fn try_plan(avg_cost: Money, quantity: Quantity, current_price: Money, targets_pct: &[Decimal]) -> (r:
    Option<BreakevenPlan>)
    ensures
        match r {
            None => plan_spec(avg_cost@, quantity@, current_price@, dec_views(targets_pct@)) is None,
            Some(x) => plan_spec(avg_cost@, quantity@, current_price@, dec_views(targets_pct@))
                == Some(x@),
        },
        r matches Some(x) ==> plan_quantities_bound(avg_cost@, quantity@, current_price@, x@),
{
    let ghost ns = dec_views(targets_pct@);
    let a = avg_cost.amount();
    let p = current_price.amount();
    let is_underwater = p.lt(&a);
    let breakeven_gap_pct = if is_underwater {
        Some(gap(&a, &p)?)
    } else {
        None
    };
    let current_return_pct = if is_underwater {
        None
    } else {
        Some(gap(&p, &a)?)
    };
    let diff = a.checked_sub(&p)?;
    let ratio = diff.checked_div(&a)?;
    let max_reduction_pct = ratio.checked_mul(&Decimal::from_int(100))?;
    let mut rows: Vec<AveragingDownRow> = Vec::new();
    let mut i: usize = 0;
    while i < targets_pct.len()
        invariant
            i <= targets_pct@.len(),
            ns == dec_views(targets_pct@),
            is_underwater == frac_lt(current_price@.0, avg_cost@.0),
            rows_spec(avg_cost@.0, quantity@, current_price@, avg_cost@.1, is_underwater, ns.take(i as int))
                == Some(row_views(rows@)),
            forall|j: int|
                0 <= j < rows@.len() ==> row_quantity_bound(
                    avg_cost@.0,
                    quantity@,
                    current_price@.0,
                    #[trigger] rows@[j]@,
                ),
        decreases targets_pct@.len() - i,
    {
        let ghost before = row_views(rows@);
        proof {
            assert(ns.take(i + 1).drop_last() =~= ns.take(i as int));
            assert(ns.take(i + 1).last() == targets_pct@[i as int]@);
        }
        match row(&avg_cost, &quantity, &current_price, is_underwater, targets_pct[i]) {
            None => {
                proof {
                    lemma_rows_none_extend(avg_cost@.0, quantity@, current_price@, avg_cost@.1, is_underwater, ns, i + 1);
                }
                return None;
            },
            Some(r) => {
                rows.push(r);
                proof {
                    assert(row_views(rows@) =~= before.push(r@));
                }
            },
        }
        i = i + 1;
    }
    proof {
        assert(ns.take(i as int) =~= ns);
        assert forall|j: int| 0 <= j < row_views(rows@).len() implies row_quantity_bound(
            avg_cost@.0,
            quantity@,
            current_price@.0,
            #[trigger] row_views(rows@)[j],
        ) by {
            assert(row_views(rows@)[j] == rows@[j]@);
        }
    }
    Some(BreakevenPlan { is_underwater, breakeven_gap_pct, current_return_pct, max_reduction_pct, rows })
}

/// A prefix of targets whose rows fail makes the whole list fail.
proof fn lemma_rows_none_extend(
    a: (int, nat),
    q: (int, nat),
    price: MoneyView,
    base: Seq<char>,
    underwater: bool,
    ns: Seq<(int, nat)>,
    n: int,
)
    requires
        0 <= n <= ns.len(),
        rows_spec(a, q, price, base, underwater, ns.take(n)) is None,
    ensures
        rows_spec(a, q, price, base, underwater, ns) is None,
    decreases ns.len() - n,
{
    if n == ns.len() {
        assert(ns.take(n) =~= ns);
    } else {
        assert(ns.take(n + 1).drop_last() =~= ns.take(n));
        lemma_rows_none_extend(a, q, price, base, underwater, ns, n + 1);
    }
}

/// The break-even and averaging-down plan: whether the position is underwater (price
/// below average cost), the percentage the price must rise to break even (while
/// underwater) or the current return (otherwise), the largest reduction of the average
/// reachable (`(A - P) / A * 100`), and a row per target. A target is feasible exactly
/// when underwater and its target average lies strictly between the price and the
/// average; infeasible rows carry zeros.
pub fn plan(avg_cost: Money, quantity: Quantity, current_price: Money, targets_pct: &[Decimal]) -> (r:
    BreakevenPlan)
    requires
        plan_spec(avg_cost@, quantity@, current_price@, dec_views(targets_pct@)) is Some,
    ensures
        plan_spec(avg_cost@, quantity@, current_price@, dec_views(targets_pct@)) == Some(r@),
        plan_quantities_bound(avg_cost@, quantity@, current_price@, r@),
{
    try_plan(avg_cost, quantity, current_price, targets_pct).unwrap()
}

/// Every row's target average is the target's reduction of the average cost, and
/// a row is feasible exactly when the position is underwater and that target lies
/// strictly between the price and the average cost; an infeasible row adds nothing.
pub proof fn lemma_rows_feasibility(
    a: (int, nat),
    q: (int, nat),
    price: MoneyView,
    base: Seq<char>,
    underwater: bool,
    ns: Seq<(int, nat)>,
)
    requires
        rows_spec(a, q, price, base, underwater, ns) is Some,
    ensures
        ({
            let rows = rows_spec(a, q, price, base, underwater, ns)->0;
            &&& rows.len() == ns.len()
            &&& forall|i: int|
                0 <= i < ns.len() ==> {
                    let r = #[trigger] rows[i];
                    &&& r.0 == ns[i]
                    &&& r.1 == (target_spec(a, ns[i])->0, base)
                    &&& r.5 <==> (underwater && frac_lt(price.0, r.1.0) && frac_lt(r.1.0, a))
                    &&& !r.5 ==> r.2 == zero_v() && r.3 == (zero_v(), base) && r.4 == zero_v()
                }
        }),
    decreases ns.len(),
{
    if ns.len() > 0 {
        lemma_rows_feasibility(a, q, price, base, underwater, ns.drop_last());
        let rows = rows_spec(a, q, price, base, underwater, ns)->0;
        let prev = rows_spec(a, q, price, base, underwater, ns.drop_last())->0;
        assert forall|i: int| 0 <= i < ns.len() - 1 implies rows[i] == prev[i] && ns[i]
            == ns.drop_last()[i] by {}
    }
}

/// The plan's rows follow the feasibility rule: a target is feasible exactly when the
/// position is underwater (price below average cost) and the target average lies
/// strictly between the price and the average cost; infeasible rows add nothing.
pub proof fn lemma_plan_feasibility(avg: MoneyView, q: (int, nat), price: MoneyView, ns: Seq<(int, nat)>)
    requires
        plan_spec(avg, q, price, ns) is Some,
    ensures
        ({
            let p = plan_spec(avg, q, price, ns)->0;
            &&& p.0 == frac_lt(price.0, avg.0)
            &&& p.4.len() == ns.len()
            &&& forall|i: int|
                0 <= i < ns.len() ==> {
                    let r = #[trigger] p.4[i];
                    &&& r.1.0 == target_spec(avg.0, ns[i])->0
                    &&& r.5 <==> (p.0 && frac_lt(price.0, r.1.0) && frac_lt(r.1.0, avg.0))
                    &&& !r.5 ==> r.2 == zero_v() && r.3.0 == zero_v() && r.4 == zero_v()
                }
        }),
{
    lemma_rows_feasibility(avg.0, q, price, avg.1, frac_lt(price.0, avg.0), ns);
}

} // verus!
