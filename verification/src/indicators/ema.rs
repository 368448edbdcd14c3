//! Exponential moving average.
use crate::decimal::{
    decimal_checked_add, decimal_checked_div, decimal_checked_mul, decimal_checked_sub, Decimal,
};
use crate::indicators::series::{nones, none_series, opt_view, series_view, values_view};
use vstd::prelude::*;

verus! {

/// The sum of the first `k` closes, added from zero in order; `None` on overflow.
pub open spec fn sum_first(cs: Seq<(int, nat)>, k: nat) -> Option<(int, nat)>
    decreases k,
{
    if k == 0 {
        Some((0, 0))
    } else {
        match sum_first(cs, (k - 1) as nat) {
            None => None,
            Some(s) => decimal_checked_add(s, cs[k - 1]),
        }
    }
}

/// The values after the seed: `alpha * close + (1 - alpha) * previous` for the `k`
/// closes that follow the first `period`, with the last value; `None` on overflow.
pub open spec fn ema_run(
    cs: Seq<(int, nat)>,
    period: nat,
    alpha: (int, nat),
    oma: (int, nat),
    seed: (int, nat),
    k: nat,
) -> Option<((int, nat), Seq<Option<(int, nat)>>)>
    decreases k,
{
    if k == 0 {
        Some((seed, Seq::empty()))
    } else {
        match ema_run(cs, period, alpha, oma, seed, (k - 1) as nat) {
            None => None,
            Some((prev, out)) => match decimal_checked_mul(alpha, cs[period + k - 1]) {
                None => None,
                Some(x) => match decimal_checked_mul(oma, prev) {
                    None => None,
                    Some(y) => match decimal_checked_add(x, y) {
                        None => None,
                        Some(next) => Some((next, out.push(Some(next)))),
                    },
                },
            },
        }
    }
}

/// The exponential moving average of `cs` over `period`; `None` where the computation
/// overflows.
pub open spec fn ema_spec(cs: Seq<(int, nat)>, period: nat) -> Option<Seq<Option<(int, nat)>>> {
    if period == 0 || cs.len() < period {
        Some(nones(cs.len()))
    } else {
        match decimal_checked_div((2int, 0nat), ((period + 1) as int, 0nat)) {
            None => None,
            Some(alpha) => match decimal_checked_sub((1int, 0nat), alpha) {
                None => None,
                Some(oma) => match sum_first(cs, period) {
                    None => None,
                    Some(total) => match decimal_checked_div(total, (period as int, 0nat)) {
                        None => None,
                        Some(seed) => match ema_run(
                            cs,
                            period,
                            alpha,
                            oma,
                            seed,
                            (cs.len() - period) as nat,
                        ) {
                            None => None,
                            Some((_, tail)) => Some(
                                nones((period - 1) as nat).push(Some(seed)) + tail,
                            ),
                        },
                    },
                },
            },
        }
    }
}

/// The tail after the seed has one value per remaining close, none of them `None`.
pub proof fn lemma_ema_run_shape(
    cs: Seq<(int, nat)>,
    period: nat,
    alpha: (int, nat),
    oma: (int, nat),
    seed: (int, nat),
    k: nat,
)
    requires
        ema_run(cs, period, alpha, oma, seed, k) is Some,
    ensures
        (ema_run(cs, period, alpha, oma, seed, k)->0).1.len() == k,
        forall|i: int|
            0 <= i < k ==> (#[trigger] (ema_run(cs, period, alpha, oma, seed, k)->0).1[i]) is Some,
    decreases k,
{
    if k > 0 {
        lemma_ema_run_shape(cs, period, alpha, oma, seed, (k - 1) as nat);
    }
}

/// The averages have one entry per close, and exactly the first `period - 1` are `None`
/// (all of them for a zero period or a series shorter than the period).
pub proof fn lemma_ema_shape(cs: Seq<(int, nat)>, period: nat)
    requires
        ema_spec(cs, period) is Some,
    ensures
        (ema_spec(cs, period)->0).len() == cs.len(),
        forall|i: int|
            0 <= i < cs.len() ==> ((#[trigger] (ema_spec(cs, period)->0)[i]) is None <==> (period
                == 0 || cs.len() < period || i + 1 < period)),
{
    if !(period == 0 || cs.len() < period) {
        let alpha = decimal_checked_div((2int, 0nat), ((period + 1) as int, 0nat))->0;
        let oma = decimal_checked_sub((1int, 0nat), alpha)->0;
        let total = sum_first(cs, period)->0;
        let seed = decimal_checked_div(total, (period as int, 0nat))->0;
        let k = (cs.len() - period) as nat;
        lemma_ema_run_shape(cs, period, alpha, oma, seed, k);
        let head = nones((period - 1) as nat).push(Some(seed));
        let tail = (ema_run(cs, period, alpha, oma, seed, k)->0).1;
        assert forall|i: int| 0 <= i < cs.len() implies ((#[trigger] (ema_spec(cs, period)->0)[i])
            is None <==> i + 1 < period) by {
            if i >= period {
                assert((head + tail)[i] == tail[i - period]);
            } else {
                assert((head + tail)[i] == head[i]);
            }
        }
    }
}

/// The sum of the first `k` closes, or `None` on overflow.
fn sum_prefix(closes: &[Decimal], k: usize) -> (r: Option<Decimal>)
    requires
        k <= closes@.len(),
    ensures
        match r {
            None => sum_first(values_view(closes@), k as nat) is None,
            Some(s) => sum_first(values_view(closes@), k as nat) == Some(s@),
        },
{
    let mut s = Decimal::zero();
    let mut i: usize = 0;
    while i < k
        invariant
            i <= k <= closes@.len(),
            sum_first(values_view(closes@), i as nat) == Some(s@),
        decreases k - i,
    {
        match s.checked_add(&closes[i]) {
            Some(x) => s = x,
            None => {
                proof {
                    lemma_sum_first_none(values_view(closes@), (i + 1) as nat, k as nat);
                }
                return None;
            },
        }
        i = i + 1;
    }
    Some(s)
}

/// An overflowing prefix sum makes every longer prefix sum overflow.
proof fn lemma_sum_first_none(cs: Seq<(int, nat)>, n: nat, k: nat)
    requires
        n <= k,
        sum_first(cs, n) is None,
    ensures
        sum_first(cs, k) is None,
    decreases k - n,
{
    if n < k {
        lemma_sum_first_none(cs, n + 1, k);
    }
}

/// An overflowing run makes every longer run overflow.
proof fn lemma_ema_run_none(
    cs: Seq<(int, nat)>,
    period: nat,
    alpha: (int, nat),
    oma: (int, nat),
    seed: (int, nat),
    n: nat,
    k: nat,
)
    requires
        n <= k,
        ema_run(cs, period, alpha, oma, seed, n) is None,
    ensures
        ema_run(cs, period, alpha, oma, seed, k) is None,
    decreases k - n,
{
    if n < k {
        lemma_ema_run_none(cs, period, alpha, oma, seed, n + 1, k);
    }
}

/// The exponential moving average, or `None` where it overflows.
pub fn try_ema(closes: &[Decimal], period: usize) -> (r: Option<Vec<Option<Decimal>>>)
    ensures
        match r {
            None => ema_spec(values_view(closes@), period as nat) is None,
            Some(v) => ema_spec(values_view(closes@), period as nat) == Some(series_view(v@)),
        },
{
    let ghost cs = values_view(closes@);
    if period == 0 || closes.len() < period {
        return Some(none_series(closes.len()));
    }
    let alpha = Decimal::from_int(2).checked_div(&Decimal::from_parts(period as i128 + 1, 0))?;
    let oma = Decimal::one().checked_sub(&alpha)?;
    let mut out = none_series(period - 1);
    let total = sum_prefix(closes, period)?;
    let seed = total.checked_div(&Decimal::from_u64(period as u64))?;
    out.push(Some(seed));
    let ghost head = nones((period - 1) as nat).push(Some(seed@));
    proof {
        assert(series_view(out@) =~= head);
    }
    let mut prev = seed;
    let mut k: usize = 0;
    let rest = closes.len() - period;
    while k < rest
        invariant
            rest == closes@.len() - period,
            closes@.len() <= usize::MAX,
            k <= rest,
            period > 0,
            cs == values_view(closes@),
            cs.len() >= period,
            decimal_checked_div((2int, 0nat), ((period + 1) as int, 0nat)) == Some(alpha@),
            decimal_checked_sub((1int, 0nat), alpha@) == Some(oma@),
            sum_first(cs, period as nat) matches Some(t) && decimal_checked_div(
                t,
                (period as int, 0nat),
            ) == Some(seed@),
            ema_run(cs, period as nat, alpha@, oma@, seed@, k as nat) matches Some((pv, tail)) && pv
                == prev@ && series_view(out@) == head + tail,
        decreases rest - k,
    {
        let ghost old_out = series_view(out@);
        let idx: usize = period + k;
        let x = match alpha.checked_mul(&closes[idx]) {
            Some(x) => x,
            None => {
                proof {
                    lemma_ema_run_none(cs, period as nat, alpha@, oma@, seed@, (k + 1) as nat, (closes@.len() - period) as nat);
                }
                return None;
            },
        };
        let y = match oma.checked_mul(&prev) {
            Some(y) => y,
            None => {
                proof {
                    lemma_ema_run_none(cs, period as nat, alpha@, oma@, seed@, (k + 1) as nat, (closes@.len() - period) as nat);
                }
                return None;
            },
        };
        let next = match x.checked_add(&y) {
            Some(n) => n,
            None => {
                proof {
                    lemma_ema_run_none(cs, period as nat, alpha@, oma@, seed@, (k + 1) as nat, (closes@.len() - period) as nat);
                }
                return None;
            },
        };
        out.push(Some(next));
        prev = next;
        proof {
            let tail = (ema_run(cs, period as nat, alpha@, oma@, seed@, k as nat)->0).1;
            assert(series_view(out@) =~= old_out.push(Some(next@)));
            assert(head + tail.push(Some(next@)) =~= (head + tail).push(Some(next@)));
        }
        k = k + 1;
    }
    Some(out)
}

/// Exponential moving average with smoothing factor `2 / (period + 1)`: one entry per
/// close, the first `period - 1` entries `None` (all of them for a zero period or a
/// series shorter than the period); the entry at `period - 1` is the average of the
/// first `period` closes, and each later one is `alpha * close + (1 - alpha) * previous`.
pub fn ema(closes: &[Decimal], period: usize) -> (r: Vec<Option<Decimal>>)
    requires
        ema_spec(values_view(closes@), period as nat) is Some,
    ensures
        ema_spec(values_view(closes@), period as nat) == Some(series_view(r@)),
        r@.len() == closes@.len(),
        forall|i: int|
            0 <= i < r@.len() ==> (#[trigger] r@[i] is None <==> (period == 0 || closes@.len()
                < period || i + 1 < period)),
{
    let r = try_ema(closes, period).unwrap();
    proof {
        lemma_ema_shape(values_view(closes@), period as nat);
        assert forall|i: int| 0 <= i < r@.len() implies (#[trigger] r@[i] is None <==> (period == 0
            || closes@.len() < period || i + 1 < period)) by {
            assert(series_view(r@)[i] == opt_view(r@[i]));
        }
    }
    r
}


/// The smoothing factor `2 / (period + 1)`, as `rust_decimal` divides.
pub open spec fn ema_alpha(period: nat) -> (int, nat) {
    decimal_checked_div((2int, 0nat), ((period + 1) as int, 0nat))->0
}

/// Inside a run, each value is the new close weighted by `alpha` plus the value before
/// it (the seed for the first) weighted by `oma`, and earlier values stay as they were.
proof fn lemma_ema_run_step(
    cs: Seq<(int, nat)>,
    period: nat,
    alpha: (int, nat),
    oma: (int, nat),
    seed: (int, nat),
    k: nat,
)
    requires
        ema_run(cs, period, alpha, oma, seed, k) is Some,
    ensures
        ({
            let (last, out) = ema_run(cs, period, alpha, oma, seed, k)->0;
            &&& out.len() == k
            &&& k > 0 ==> out[k - 1] == Some(last)
            &&& k == 0 ==> last == seed
            &&& forall|j: int|
                0 <= j < k ==> (#[trigger] out[j]) == Some(
                    decimal_checked_add(
                        decimal_checked_mul(alpha, cs[period + j])->0,
                        decimal_checked_mul(oma, if j == 0 {
                            seed
                        } else {
                            out[j - 1]->0
                        })->0,
                    )->0,
                )
        }),
    decreases k,
{
    if k > 0 {
        lemma_ema_run_step(cs, period, alpha, oma, seed, (k - 1) as nat);
        let prev = ema_run(cs, period, alpha, oma, seed, (k - 1) as nat)->0;
        let cur = ema_run(cs, period, alpha, oma, seed, k)->0;
        assert forall|j: int| 0 <= j < k - 1 implies #[trigger] cur.1[j] == prev.1[j] by {}
    }
}

/// The exponential moving average: from index `period` on, each value is
/// `alpha * close + (1 - alpha) * previous value`, where the new close's weight `alpha`
/// is `2 / (period + 1)` and the previous value's is one minus that (the seed at
/// `period - 1` being the first previous value).
pub proof fn lemma_ema_recurrence(cs: Seq<(int, nat)>, period: nat)
    requires
        ema_spec(cs, period) is Some,
    ensures
        ({
            let e = ema_spec(cs, period)->0;
            let alpha = ema_alpha(period);
            let oma = decimal_checked_sub((1int, 0nat), alpha)->0;
            forall|i: int|
                period <= i < cs.len() && period > 0 ==> e[i - 1] is Some && (#[trigger] e[i])
                    == Some(
                    decimal_checked_add(
                        decimal_checked_mul(alpha, cs[i])->0,
                        decimal_checked_mul(oma, e[i - 1]->0)->0,
                    )->0,
                )
        }),
{
    if !(period == 0 || cs.len() < period) {
        let alpha = ema_alpha(period);
        let oma = decimal_checked_sub((1int, 0nat), alpha)->0;
        let total = sum_first(cs, period)->0;
        let seed = decimal_checked_div(total, (period as int, 0nat))->0;
        let k = (cs.len() - period) as nat;
        lemma_ema_run_step(cs, period, alpha, oma, seed, k);
        let head = nones((period - 1) as nat).push(Some(seed));
        let tail = (ema_run(cs, period, alpha, oma, seed, k)->0).1;
        assert(ema_spec(cs, period) == Some(head + tail));
        lemma_ema_indices(cs, period, alpha, oma, seed, head, tail);
    }
}

/// The recurrence read off the seed followed by the run.
proof fn lemma_ema_indices(
    cs: Seq<(int, nat)>,
    period: nat,
    alpha: (int, nat),
    oma: (int, nat),
    seed: (int, nat),
    head: Seq<Option<(int, nat)>>,
    tail: Seq<Option<(int, nat)>>,
)
    requires
        period > 0,
        cs.len() >= period,
        head == nones((period - 1) as nat).push(Some(seed)),
        tail.len() == cs.len() - period,
        forall|j: int|
            0 <= j < tail.len() ==> (#[trigger] tail[j]) == Some(
                decimal_checked_add(
                    decimal_checked_mul(alpha, cs[period + j])->0,
                    decimal_checked_mul(oma, if j == 0 {
                        seed
                    } else {
                        tail[j - 1]->0
                    })->0,
                )->0,
            ),
    ensures
        forall|i: int|
            period <= i < cs.len() ==> (head + tail)[i - 1] is Some && (#[trigger] (head + tail)[i])
                == Some(
                decimal_checked_add(
                    decimal_checked_mul(alpha, cs[i])->0,
                    decimal_checked_mul(oma, (head + tail)[i - 1]->0)->0,
                )->0,
            ),
{
    let e = head + tail;
    assert forall|i: int| period <= i < cs.len() implies e[i - 1] is Some && (#[trigger] e[i])
        == Some(
        decimal_checked_add(
            decimal_checked_mul(alpha, cs[i])->0,
            decimal_checked_mul(oma, e[i - 1]->0)->0,
        )->0,
    ) by {
        let j = i - period;
        assert(e[i] == tail[j]);
        assert(tail[j] is Some);
        if j == 0 {
            assert(e[i - 1] == head[period - 1]);
        } else {
            assert(e[i - 1] == tail[j - 1]);
        }
        assert(period + j == i);
    }
}

} // verus!
