//! Relative strength index with Wilder's smoothing.
use crate::decimal::{
    aligned_sum, decimal_checked_add, decimal_checked_div, decimal_checked_mul, decimal_checked_sub,
    frac_add, frac_eq, frac_ge_int, frac_le_int, frac_mul, frac_neg, frac_sub, lemma_add_nonneg,
    lemma_frac_add_congruent, lemma_frac_eq_refl, lemma_frac_eq_trans, lemma_frac_mul_congruent,
    lemma_ge_zero, lemma_mul_nonneg, lemma_pow10_positive, lemma_quot_near_congruent,
    lemma_rounds_nonneg, lemma_rounds_quot_nonneg, frac_in_range, max_mantissa, max_scale, pow10,
    quot_ge_int, quot_in_range, quot_le_int, quot_near, Decimal,
};
use crate::indicators::series::{nones, none_series, opt_view, series_view, values_view};
use vstd::prelude::*;

verus! {

/// `0 <= v <= 100`.
pub open spec fn in_percent_range(v: (int, nat)) -> bool {
    frac_ge_int(v, 0) && frac_le_int(v, 100)
}

/// The index from an average gain and an average loss: 100 when there is no loss,
/// else `100 - 100 / (1 + gain / loss)`; `None` on overflow.
pub open spec fn rsi_from_spec(g: (int, nat), l: (int, nat)) -> Option<(int, nat)> {
    if l.0 == 0 {
        Some((100int, 0nat))
    } else {
        match decimal_checked_div(g, l) {
            None => None,
            Some(rs) => match decimal_checked_add((1int, 0nat), rs) {
                None => None,
                Some(d) => match decimal_checked_div((100int, 0nat), d) {
                    None => None,
                    Some(q) => decimal_checked_sub((100int, 0nat), q),
                },
            },
        }
    }
}

/// The gain and the loss of one move: the rise and zero, or zero and the fall as a
/// positive amount.
pub open spec fn split_move(d: (int, nat)) -> ((int, nat), (int, nat)) {
    if d.0 > 0 {
        (d, (0int, 0nat))
    } else {
        ((0int, 0nat), frac_neg(d))
    }
}

/// Total gain and total loss over the first `n` moves (close `i` to close `i + 1`),
/// summed in order; `None` on overflow.
pub open spec fn moves_total(cs: Seq<(int, nat)>, n: nat) -> Option<((int, nat), (int, nat))>
    decreases n,
{
    if n == 0 {
        Some(((0int, 0nat), (0int, 0nat)))
    } else {
        match moves_total(cs, (n - 1) as nat) {
            None => None,
            Some((g, l)) => match decimal_checked_sub(cs[n as int], cs[n - 1]) {
                None => None,
                Some(d) => if d.0 > 0 {
                    match decimal_checked_add(g, d) {
                        None => None,
                        Some(g2) => Some((g2, l)),
                    }
                } else {
                    match decimal_checked_add(l, frac_neg(d)) {
                        None => None,
                        Some(l2) => Some((g, l2)),
                    }
                },
            },
        }
    }
}

/// Wilder's smoothing: `(avg * (p - 1) + x) / p`; `None` on overflow.
pub open spec fn smooth_spec(avg: (int, nat), x: (int, nat), p: (int, nat), pm1: (int, nat)) -> Option<
    (int, nat),
> {
    match decimal_checked_mul(avg, pm1) {
        None => None,
        Some(a) => match decimal_checked_add(a, x) {
            None => None,
            Some(b) => decimal_checked_div(b, p),
        },
    }
}

/// One smoothing step on the move from close `i` to close `i + 1`: the new averages and
/// the index they give.
pub open spec fn rsi_step(
    cs: Seq<(int, nat)>,
    p: (int, nat),
    pm1: (int, nat),
    i: int,
    avgs: ((int, nat), (int, nat)),
) -> Option<(((int, nat), (int, nat)), (int, nat))> {
    match decimal_checked_sub(cs[i + 1], cs[i]) {
        None => None,
        Some(d) => match smooth_spec(avgs.0, split_move(d).0, p, pm1) {
            None => None,
            Some(g2) => match smooth_spec(avgs.1, split_move(d).1, p, pm1) {
                None => None,
                Some(l2) => match rsi_from_spec(g2, l2) {
                    None => None,
                    Some(v) => Some(((g2, l2), v)),
                },
            },
        },
    }
}

/// The averages and the indices after the first `k` moves that follow the first
/// `period` ones.
pub open spec fn rsi_run(
    cs: Seq<(int, nat)>,
    period: nat,
    p: (int, nat),
    pm1: (int, nat),
    avgs0: ((int, nat), (int, nat)),
    k: nat,
) -> Option<(((int, nat), (int, nat)), Seq<Option<(int, nat)>>)>
    decreases k,
{
    if k == 0 {
        Some((avgs0, Seq::empty()))
    } else {
        match rsi_run(cs, period, p, pm1, avgs0, (k - 1) as nat) {
            None => None,
            Some((avgs, out)) => match rsi_step(cs, p, pm1, period + k - 1, avgs) {
                None => None,
                Some((avgs2, v)) => Some((avgs2, out.push(Some(v)))),
            },
        }
    }
}

/// The relative strength index of `cs` over `period`; `None` where the computation
/// overflows.
pub open spec fn rsi_spec(cs: Seq<(int, nat)>, period: nat) -> Option<Seq<Option<(int, nat)>>> {
    if period == 0 || cs.len() <= period {
        Some(nones(cs.len()))
    } else {
        let p = (period as int, 0nat);
        match moves_total(cs, period) {
            None => None,
            Some((sg, sl)) => match decimal_checked_div(sg, p) {
                None => None,
                Some(ag) => match decimal_checked_div(sl, p) {
                    None => None,
                    Some(al) => match rsi_from_spec(ag, al) {
                        None => None,
                        Some(v0) => match decimal_checked_sub(p, (1int, 0nat)) {
                            None => None,
                            Some(pm1) => match rsi_run(
                                cs,
                                period,
                                p,
                                pm1,
                                (ag, al),
                                (cs.len() - 1 - period) as nat,
                            ) {
                                None => None,
                                Some((_, tail)) => Some(nones(period).push(Some(v0)) + tail),
                            },
                        },
                    },
                },
            },
        }
    }
}

/// The run has one value per move, none of them `None`.
pub proof fn lemma_rsi_run_shape(
    cs: Seq<(int, nat)>,
    period: nat,
    p: (int, nat),
    pm1: (int, nat),
    avgs0: ((int, nat), (int, nat)),
    k: nat,
)
    requires
        rsi_run(cs, period, p, pm1, avgs0, k) is Some,
    ensures
        (rsi_run(cs, period, p, pm1, avgs0, k)->0).1.len() == k,
        forall|i: int|
            0 <= i < k ==> (#[trigger] (rsi_run(cs, period, p, pm1, avgs0, k)->0).1[i]) is Some,
    decreases k,
{
    if k > 0 {
        lemma_rsi_run_shape(cs, period, p, pm1, avgs0, (k - 1) as nat);
    }
}

/// The index has one entry per close, and exactly the first `period` are `None` (all of
/// them for a zero period or a series of at most `period` closes).
pub proof fn lemma_rsi_shape(cs: Seq<(int, nat)>, period: nat)
    requires
        rsi_spec(cs, period) is Some,
    ensures
        (rsi_spec(cs, period)->0).len() == cs.len(),
        forall|i: int|
            0 <= i < cs.len() ==> ((#[trigger] (rsi_spec(cs, period)->0)[i]) is None <==> (period
                == 0 || cs.len() <= period || i < period)),
{
    if !(period == 0 || cs.len() <= period) {
        let p = (period as int, 0nat);
        let (sg, sl) = moves_total(cs, period)->0;
        let ag = decimal_checked_div(sg, p)->0;
        let al = decimal_checked_div(sl, p)->0;
        let v0 = rsi_from_spec(ag, al)->0;
        let pm1 = decimal_checked_sub(p, (1int, 0nat))->0;
        let k = (cs.len() - 1 - period) as nat;
        lemma_rsi_run_shape(cs, period, p, pm1, (ag, al), k);
        let head = nones(period).push(Some(v0));
        let tail = (rsi_run(cs, period, p, pm1, (ag, al), k)->0).1;
        assert forall|i: int| 0 <= i < cs.len() implies ((#[trigger] (rsi_spec(cs, period)->0)[i])
            is None <==> i < period) by {
            if i > period {
                assert((head + tail)[i] == tail[i - period - 1]);
            } else {
                assert((head + tail)[i] == head[i]);
            }
        }
    }
}

proof fn lemma_moves_total_none(cs: Seq<(int, nat)>, n: nat, k: nat)
    requires
        n <= k,
        moves_total(cs, n) is None,
    ensures
        moves_total(cs, k) is None,
    decreases k - n,
{
    if n < k {
        lemma_moves_total_none(cs, n + 1, k);
    }
}

proof fn lemma_rsi_run_none(
    cs: Seq<(int, nat)>,
    period: nat,
    p: (int, nat),
    pm1: (int, nat),
    avgs0: ((int, nat), (int, nat)),
    n: nat,
    k: nat,
)
    requires
        n <= k,
        rsi_run(cs, period, p, pm1, avgs0, n) is None,
    ensures
        rsi_run(cs, period, p, pm1, avgs0, k) is None,
    decreases k - n,
{
    if n < k {
        lemma_rsi_run_none(cs, period, p, pm1, avgs0, n + 1, k);
    }
}

/// `a / b` is exactly the whole number `k`, between 0 and 100, with `b` positive: the
/// quotient lies in range and its integer bounds are `k` on both sides.
proof fn lemma_quot_is_int(a: (int, nat), b: (int, nat), k: int)
    requires
        b.0 > 0,
        0 <= k <= 100,
        a.0 * pow10(b.1) == k * (b.0 * pow10(a.1)),
    ensures
        quot_in_range(a, b),
        quot_ge_int(a, b, k),
        quot_le_int(a, b, k),
{
    lemma_pow10_positive(a.1);
    let d = b.0 * pow10(a.1);
    assert(d > 0) by (nonlinear_arith)
        requires
            b.0 > 0,
            pow10(a.1) > 0,
            d == b.0 * pow10(a.1),
    ;
    assert(-max_mantissa() * d < k * d < max_mantissa() * d) by (nonlinear_arith)
        requires
            d > 0,
            0 <= k <= 100,
            max_mantissa() > 100,
    ;
    assert(max_mantissa() * d == max_mantissa() * b.0 * pow10(a.1)) by (nonlinear_arith)
        requires
            d == b.0 * pow10(a.1),
    ;
}

/// A value that is exactly the whole number `k`, between 0 and 100, lies in range and
/// has `k` as both integer bounds.
proof fn lemma_frac_is_int(e: (int, nat), k: int)
    requires
        0 <= k <= 100,
        e.0 == k * pow10(e.1),
    ensures
        frac_in_range(e),
        frac_ge_int(e, k),
        frac_le_int(e, k),
{
    lemma_pow10_positive(e.1);
    assert(-max_mantissa() * pow10(e.1) < k * pow10(e.1) < max_mantissa() * pow10(e.1))
        by (nonlinear_arith)
        requires
            pow10(e.1) > 0,
            0 <= k <= 100,
            max_mantissa() > 100,
    ;
}

/// The index from an average gain and an average loss, which lies between 0 and 100.
/// With a loss and no gain it is 0, and with a gain equal to the loss it is 50.
pub fn rsi_from(avg_gain: &Decimal, avg_loss: &Decimal) -> (r: Option<Decimal>)
    requires
        avg_gain@.0 >= 0,
        avg_loss@.0 >= 0,
    ensures
        opt_view(r) == rsi_from_spec(avg_gain@, avg_loss@),
        r matches Some(v) ==> in_percent_range(v@),
        avg_gain@.0 == 0 && avg_loss@.0 > 0 ==> (r matches Some(v) && v@.0 == 0),
        frac_eq(avg_gain@, avg_loss@) && avg_loss@.0 > 0 ==> (r matches Some(v) && frac_eq(
            v@,
            (50int, 0nat),
        )),
{
    if avg_loss.is_zero() {
        return Some(Decimal::from_int(100));
    }
    let hundred = Decimal::from_int(100);
    let ghost g = avg_gain@;
    let ghost l = avg_loss@;
    // 1 with no gain, 2 with a gain equal to the loss: the value of `1 + gain / loss`
    let ghost known = g.0 == 0 || frac_eq(g, l);
    let ghost k: int = if g.0 == 0 {
        1
    } else {
        2
    };
    proof {
        lemma_pow10_positive(g.1);
        lemma_pow10_positive(l.1);
        if g.0 == 0 {
            lemma_quot_is_int(g, l, 0);
        } else if frac_eq(g, l) {
            lemma_quot_is_int(g, l, 1);
        }
    }
    let rs = avg_gain.checked_div(avg_loss)?;
    proof {
        lemma_rounds_quot_nonneg(rs@, avg_gain@, avg_loss@);
        assert(pow10(0) == 1);
        if known {
            assert(frac_ge_int(rs@, k - 1));
            assert(frac_le_int(rs@, k - 1));
            lemma_frac_is_int(frac_add((1int, 0nat), rs@), k);
        }
    }
    let d = Decimal::one().checked_add(&rs)?;
    proof {
        assert(pow10(0) == 1);
        assert(frac_ge_int(frac_add((1int, 0nat), rs@), 1));
        assert(frac_ge_int(d@, 1));
        lemma_pow10_positive(d@.1);
        assert(quot_ge_int((100int, 0nat), d@, 0)) by (nonlinear_arith)
            requires
                d@.0 >= pow10(d@.1),
                pow10(d@.1) > 0,
                pow10(0) == 1,
        ;
        assert(quot_le_int((100int, 0nat), d@, 100)) by (nonlinear_arith)
            requires
                d@.0 >= pow10(d@.1),
                pow10(d@.1) > 0,
                pow10(0) == 1,
        ;
        if known {
            assert(frac_ge_int(d@, k));
            assert(frac_le_int(d@, k));
            assert(d@.0 == k * pow10(d@.1));
            assert(100 * pow10(d@.1) == (100int / k) * (d@.0 * pow10(0))) by (nonlinear_arith)
                requires
                    d@.0 == k * pow10(d@.1),
                    k == 1 || k == 2,
                    pow10(0) == 1,
            ;
            lemma_quot_is_int((100int, 0nat), d@, 100int / k);
        }
    }
    let q = hundred.checked_div(&d)?;
    proof {
        assert(frac_ge_int(q@, 0));
        assert(frac_le_int(q@, 100));
        assert(frac_ge_int(frac_sub(hundred@, q@), 0));
        assert(frac_le_int(frac_sub(hundred@, q@), 100)) by {
            lemma_ge_zero(q@);
        }
        if known {
            assert(frac_ge_int(q@, 100int / k));
            assert(frac_le_int(q@, 100int / k));
            let e = frac_sub(hundred@, q@);
            assert(e.0 == 100 * pow10(q@.1) - q@.0);
            assert(e.0 == (100 - 100int / k) * pow10(e.1)) by (nonlinear_arith)
                requires
                    e.0 == 100 * pow10(q@.1) - q@.0,
                    q@.0 == (100int / k) * pow10(q@.1),
                    e.1 == q@.1,
            ;
            lemma_frac_is_int(e, 100 - 100int / k);
        }
    }
    let v = hundred.checked_sub(&q)?;
    proof {
        assert(frac_ge_int(v@, 0));
        assert(frac_le_int(v@, 100));
        if known {
            assert(frac_ge_int(v@, 100 - 100int / k));
            assert(frac_le_int(v@, 100 - 100int / k));
            assert(v@.0 == (100 - 100int / k) * pow10(v@.1));
        }
        if frac_eq(g, l) {
            assert(g.0 != 0) by (nonlinear_arith)
                requires
                    g.0 * pow10(l.1) == l.0 * pow10(g.1),
                    l.0 > 0,
                    pow10(g.1) > 0,
            ;
            assert(k == 2);
            assert(100 - 100int / k == 50);
            assert(pow10(0) == 1);
            assert(v@.0 == 50 * pow10(v@.1));
            assert(v@.0 * pow10(0) == 50 * pow10(v@.1));
            assert(frac_eq(v@, (50int, 0nat)));
        }
    }
    Some(v)
}

/// The product `avg * pm1` and then the sum with `x` come out exact: the product fits
/// without rounding (at most 28 places, a 96-bit mantissa) and so does the sum.
pub open spec fn smooth_steps_fit(avg: (int, nat), x: (int, nat), pm1: (int, nat)) -> bool {
    &&& avg.1 + pm1.1 <= max_scale()
    &&& -max_mantissa() <= avg.0 * pm1.0 <= max_mantissa()
    &&& -max_mantissa() <= aligned_sum(decimal_checked_mul(avg, pm1)->0, x) <= max_mantissa()
}

/// Wilder's smoothing step `(avg * (p - 1) + x) / p` with `pm1 = p - 1`: the previous
/// average carries weight `(p - 1) / p` and the new move `1 / p`. The result is not
/// negative for inputs that are not, and where the product and the sum before the
/// division fit without rounding, it is that exact value rounded to its own last place.
pub fn smooth(avg: &Decimal, x: &Decimal, p: &Decimal, pm1: &Decimal) -> (r: Option<Decimal>)
    requires
        avg@.0 >= 0,
        x@.0 >= 0,
        p@.0 > 0,
        pm1@.0 >= 0,
        frac_eq(pm1@, frac_sub(p@, (1int, 0nat))),
    ensures
        opt_view(r) == smooth_spec(avg@, x@, p@, pm1@),
        r matches Some(v) ==> v@.0 >= 0,
        r matches Some(v) ==> (smooth_steps_fit(avg@, x@, pm1@) ==> quot_near(
            v@,
            frac_add(frac_mul(avg@, frac_sub(p@, (1int, 0nat))), x@),
            p@,
        )),
{
    let a = avg.checked_mul(pm1)?;
    proof {
        lemma_mul_nonneg(avg@, pm1@);
        lemma_rounds_nonneg(a@, crate::decimal::frac_mul(avg@, pm1@));
    }
    let b = a.checked_add(x)?;
    proof {
        lemma_add_nonneg(a@, x@);
        lemma_rounds_nonneg(b@, frac_add(a@, x@));
    }
    let c = b.checked_div(p)?;
    proof {
        lemma_rounds_quot_nonneg(c@, b@, p@);
        if smooth_steps_fit(avg@, x@, pm1@) {
            let exact = frac_add(frac_mul(avg@, frac_sub(p@, (1int, 0nat))), x@);
            lemma_frac_eq_refl(avg@);
            lemma_frac_eq_refl(x@);
            lemma_frac_eq_refl(p@);
            lemma_frac_mul_congruent(avg@, avg@, pm1@, frac_sub(p@, (1int, 0nat)));
            lemma_frac_eq_trans(a@, frac_mul(avg@, pm1@), frac_mul(avg@, frac_sub(p@, (1int, 0nat))));
            lemma_frac_add_congruent(a@, frac_mul(avg@, frac_sub(p@, (1int, 0nat))), x@, x@);
            lemma_frac_eq_trans(b@, frac_add(a@, x@), exact);
            lemma_quot_near_congruent(c@, b@, p@, exact, p@);
        }
    }
    Some(c)
}

/// The relative strength index, or `None` where it overflows; every value lies between
/// 0 and 100.
pub fn try_rsi(closes: &[Decimal], period: usize) -> (r: Option<Vec<Option<Decimal>>>)
    ensures
        match r {
            None => rsi_spec(values_view(closes@), period as nat) is None,
            Some(v) => rsi_spec(values_view(closes@), period as nat) == Some(series_view(v@))
                && forall|i: int|
                0 <= i < v@.len() ==> (#[trigger] v@[i] matches Some(x) ==> in_percent_range(x@)),
        },
{
    let ghost cs = values_view(closes@);
    if period == 0 || closes.len() <= period {
        let v = none_series(closes.len());
        proof {
            assert(series_view(v@).len() == v@.len());
            assert forall|i: int| 0 <= i < v@.len() implies (#[trigger] v@[i] matches Some(x)
                ==> in_percent_range(x@)) by {
                assert(series_view(v@)[i] == opt_view(v@[i]));
                assert(nones(closes@.len() as nat)[i] is None);
            }
        }
        return Some(v);
    }
    let mut sum_gain = Decimal::zero();
    let mut sum_loss = Decimal::zero();
    let mut i: usize = 0;
    while i < period
        invariant
            i <= period < closes@.len(),
            cs == values_view(closes@),
            moves_total(cs, i as nat) == Some((sum_gain@, sum_loss@)),
            sum_gain@.0 >= 0,
            sum_loss@.0 >= 0,
        decreases period - i,
    {
        let diff = match closes[i + 1].checked_sub(&closes[i]) {
            Some(d) => d,
            None => {
                proof {
                    lemma_moves_total_none(cs, (i + 1) as nat, period as nat);
                }
                return None;
            },
        };
        if diff.is_positive() {
            match sum_gain.checked_add(&diff) {
                Some(g) => {
                    proof {
                        lemma_add_nonneg(sum_gain@, diff@);
                        lemma_rounds_nonneg(g@, frac_add(sum_gain@, diff@));
                    }
                    sum_gain = g;
                },
                None => {
                    proof {
                        lemma_moves_total_none(cs, (i + 1) as nat, period as nat);
                    }
                    return None;
                },
            }
        } else {
            let fall = diff.neg();
            match sum_loss.checked_add(&fall) {
                Some(l) => {
                    proof {
                        lemma_add_nonneg(sum_loss@, fall@);
                        lemma_rounds_nonneg(l@, frac_add(sum_loss@, fall@));
                    }
                    sum_loss = l;
                },
                None => {
                    proof {
                        lemma_moves_total_none(cs, (i + 1) as nat, period as nat);
                    }
                    return None;
                },
            }
        }
        i = i + 1;
    }
    let p = Decimal::from_u64(period as u64);
    let avg_gain = sum_gain.checked_div(&p)?;
    let avg_loss = sum_loss.checked_div(&p)?;
    proof {
        lemma_rounds_quot_nonneg(avg_gain@, sum_gain@, p@);
        lemma_rounds_quot_nonneg(avg_loss@, sum_loss@, p@);
    }
    let first = rsi_from(&avg_gain, &avg_loss)?;
    let pm1 = p.checked_sub(&Decimal::one())?;
    proof {
        assert(pow10(0) == 1);
        let e = frac_sub(p@, (1int, 0nat));
        assert(e.0 == period as int * pow10(0) + (-1int) * pow10(0));
        assert(e.0 == period - 1);
        assert(e.1 == 0);
        assert(frac_ge_int(e, 0));
        lemma_rounds_nonneg(pm1@, frac_sub(p@, (1int, 0nat)));
        assert(aligned_sum(p@, frac_neg((1int, 0nat))) == period - 1);
        assert(frac_eq(pm1@, frac_sub(p@, (1int, 0nat))));
    }
    let mut out = none_series(period);
    let ghost nones_out = out@;
    out.push(Some(first));
    let ghost head = nones(period as nat).push(Some(first@));
    proof {
        assert(series_view(out@) =~= head);
        assert forall|j: int| 0 <= j < out@.len() implies (#[trigger] out@[j] matches Some(x)
            ==> in_percent_range(x@)) by {
            if j < period {
                assert(out@[j] == nones_out[j]);
                assert(series_view(nones_out)[j] == opt_view(nones_out[j]));
            }
        }
    }
    let mut ag = avg_gain;
    let mut al = avg_loss;
    let mut k: usize = 0;
    let rest = closes.len() - 1 - period;
    while k < rest
        invariant
            rest == closes@.len() - 1 - period,
            k <= rest,
            closes@.len() <= usize::MAX,
            period > 0,
            cs == values_view(closes@),
            p@ == (period as int, 0nat),
            moves_total(cs, period as nat) == Some((sum_gain@, sum_loss@)),
            decimal_checked_div(sum_gain@, p@) == Some(avg_gain@),
            decimal_checked_div(sum_loss@, p@) == Some(avg_loss@),
            rsi_from_spec(avg_gain@, avg_loss@) == Some(first@),
            decimal_checked_sub(p@, (1int, 0nat)) == Some(pm1@),
            frac_eq(pm1@, frac_sub(p@, (1int, 0nat))),
            pm1@.0 >= 0,
            ag@.0 >= 0,
            al@.0 >= 0,
            rsi_run(cs, period as nat, p@, pm1@, (avg_gain@, avg_loss@), k as nat) matches Some(
                (a, tail),
            ) && a == (ag@, al@) && series_view(out@) == head + tail,
            forall|j: int|
                0 <= j < out@.len() ==> (#[trigger] out@[j] matches Some(x) ==> in_percent_range(
                    x@,
                )),
        decreases rest - k,
    {
        let ghost old_out = out@;
        let idx: usize = period + k;
        let diff = match closes[idx + 1].checked_sub(&closes[idx]) {
            Some(d) => d,
            None => {
                proof {
                    lemma_rsi_run_none(cs, period as nat, p@, pm1@, (avg_gain@, avg_loss@), (k + 1) as nat, rest as nat);
                }
                return None;
            },
        };
        let zero = Decimal::zero();
        let (gain, loss) = if diff.is_positive() {
            (diff, zero)
        } else {
            (zero, diff.neg())
        };
        let g2 = match smooth(&ag, &gain, &p, &pm1) {
            Some(g) => g,
            None => {
                proof {
                    lemma_rsi_run_none(cs, period as nat, p@, pm1@, (avg_gain@, avg_loss@), (k + 1) as nat, rest as nat);
                }
                return None;
            },
        };
        let l2 = match smooth(&al, &loss, &p, &pm1) {
            Some(l) => l,
            None => {
                proof {
                    lemma_rsi_run_none(cs, period as nat, p@, pm1@, (avg_gain@, avg_loss@), (k + 1) as nat, rest as nat);
                }
                return None;
            },
        };
        let v = match rsi_from(&g2, &l2) {
            Some(v) => v,
            None => {
                proof {
                    lemma_rsi_run_none(cs, period as nat, p@, pm1@, (avg_gain@, avg_loss@), (k + 1) as nat, rest as nat);
                }
                return None;
            },
        };
        out.push(Some(v));
        ag = g2;
        al = l2;
        proof {
            let tail = (rsi_run(cs, period as nat, p@, pm1@, (avg_gain@, avg_loss@), k as nat)->0).1;
            assert(series_view(out@) =~= series_view(old_out).push(Some(v@)));
            assert(head + tail.push(Some(v@)) =~= (head + tail).push(Some(v@)));
            assert forall|j: int| 0 <= j < out@.len() implies (#[trigger] out@[j] matches Some(x)
                ==> in_percent_range(x@)) by {
                if j < old_out.len() {
                    assert(out@[j] == old_out[j]);
                }
            }
        }
        k = k + 1;
    }
    Some(out)
}

/// Relative strength index over `period` moves with Wilder's smoothing: one entry per
/// close, the first `period` entries `None` (all of them for a zero period or a series
/// of at most `period` closes); every value lies between 0 and 100.
pub fn rsi(closes: &[Decimal], period: usize) -> (r: Vec<Option<Decimal>>)
    requires
        rsi_spec(values_view(closes@), period as nat) is Some,
    ensures
        rsi_spec(values_view(closes@), period as nat) == Some(series_view(r@)),
        r@.len() == closes@.len(),
        forall|i: int|
            0 <= i < r@.len() ==> (#[trigger] r@[i] is None <==> (period == 0 || closes@.len()
                <= period || i < period)),
        forall|i: int|
            0 <= i < r@.len() ==> (#[trigger] r@[i] matches Some(x) ==> in_percent_range(x@)),
{
    let r = try_rsi(closes, period).unwrap();
    proof {
        lemma_rsi_shape(values_view(closes@), period as nat);
        assert forall|i: int| 0 <= i < r@.len() implies (#[trigger] r@[i] is None <==> (period == 0
            || closes@.len() <= period || i < period)) by {
            assert(series_view(r@)[i] == opt_view(r@[i]));
        }
    }
    r
}

} // verus!
