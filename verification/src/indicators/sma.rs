//! Simple moving average.
use crate::decimal::{decimal_checked_add, decimal_checked_div, decimal_checked_sub, Decimal};
use crate::indicators::series::{nones, none_series, series_view, values_view};
use vstd::prelude::*;

verus! {

/// One step of the running window sum at index `i`: add `closes[i]`, drop
/// `closes[i - period]` once the window is full, and emit the average once there are
/// `period` closes; `None` on overflow.
pub open spec fn sma_step(closes: Seq<(int, nat)>, period: nat, i: int, sum: (int, nat)) -> Option<
    ((int, nat), Option<(int, nat)>),
> {
    match decimal_checked_add(sum, closes[i]) {
        None => None,
        Some(s1) => {
            let s2 = if i >= period {
                decimal_checked_sub(s1, closes[i - period])
            } else {
                Some(s1)
            };
            match s2 {
                None => None,
                Some(s) => if i + 1 >= period {
                    match decimal_checked_div(s, (period as int, 0nat)) {
                        None => None,
                        Some(avg) => Some((s, Some(avg))),
                    }
                } else {
                    Some((s, None))
                },
            }
        },
    }
}

/// The running sum and the averages after the first `n` closes.
pub open spec fn sma_run(closes: Seq<(int, nat)>, period: nat, n: nat) -> Option<
    ((int, nat), Seq<Option<(int, nat)>>),
>
    decreases n,
{
    if n == 0 {
        Some(((0, 0), Seq::empty()))
    } else {
        match sma_run(closes, period, (n - 1) as nat) {
            None => None,
            Some((sum, out)) => match sma_step(closes, period, n - 1, sum) {
                None => None,
                Some((s, o)) => Some((s, out.push(o))),
            },
        }
    }
}

/// The simple moving average of `closes` over `period`; `None` where the running sum
/// overflows the decimal range.
pub open spec fn sma_spec(closes: Seq<(int, nat)>, period: nat) -> Option<Seq<Option<(int, nat)>>> {
    if period == 0 {
        Some(nones(closes.len()))
    } else {
        match sma_run(closes, period, closes.len()) {
            None => None,
            Some((_, out)) => Some(out),
        }
    }
}

/// The averages have one entry per close, and the first `period - 1` are `None`.
pub proof fn lemma_sma_shape(closes: Seq<(int, nat)>, period: nat, n: nat)
    requires
        period > 0,
        n <= closes.len(),
        sma_run(closes, period, n) is Some,
    ensures
        (sma_run(closes, period, n)->0).1.len() == n,
        forall|i: int|
            0 <= i < n ==> (#[trigger] (sma_run(closes, period, n)->0).1[i] is None <==> i + 1
                < period),
    decreases n,
{
    if n > 0 {
        lemma_sma_shape(closes, period, (n - 1) as nat);
    }
}

/// If some prefix overflows, the whole series does.
proof fn lemma_sma_none_extend(closes: Seq<(int, nat)>, period: nat, n: nat)
    requires
        n <= closes.len(),
        sma_run(closes, period, n) is None,
    ensures
        sma_run(closes, period, closes.len()) is None,
    decreases closes.len() - n,
{
    if n < closes.len() {
        lemma_sma_none_extend(closes, period, n + 1);
    }
}

/// The simple moving average, or `None` where the running sum overflows.
pub fn try_sma(closes: &[Decimal], period: usize) -> (r: Option<Vec<Option<Decimal>>>)
    ensures
        match r {
            None => sma_spec(values_view(closes@), period as nat) is None,
            Some(v) => sma_spec(values_view(closes@), period as nat) == Some(series_view(v@)),
        },
{
    let ghost cs = values_view(closes@);
    if period == 0 {
        return Some(none_series(closes.len()));
    }
    let p = Decimal::from_u64(period as u64);
    let mut out: Vec<Option<Decimal>> = Vec::new();
    let mut sum = Decimal::zero();
    let mut i: usize = 0;
    while i < closes.len()
        invariant
            i <= closes@.len(),
            cs == values_view(closes@),
            period > 0,
            p@ == (period as int, 0nat),
            sma_run(cs, period as nat, i as nat) == Some((sum@, series_view(out@))),
        decreases closes@.len() - i,
    {
        let ghost old_out = series_view(out@);
        let s1 = match sum.checked_add(&closes[i]) {
            Some(x) => x,
            None => {
                proof {
                    lemma_sma_none_extend(cs, period as nat, (i + 1) as nat);
                }
                return None;
            },
        };
        let s2 = if i >= period {
            match s1.checked_sub(&closes[i - period]) {
                Some(x) => x,
                None => {
                    proof {
                        lemma_sma_none_extend(cs, period as nat, (i + 1) as nat);
                    }
                    return None;
                },
            }
        } else {
            s1
        };
        if i + 1 >= period {
            match s2.checked_div(&p) {
                Some(avg) => out.push(Some(avg)),
                None => {
                    proof {
                        lemma_sma_none_extend(cs, period as nat, (i + 1) as nat);
                    }
                    return None;
                },
            }
        } else {
            out.push(None);
        }
        sum = s2;
        proof {
            assert(series_view(out@) =~= old_out.push(
                if i + 1 >= period {
                    crate::indicators::series::opt_view(out@.last())
                } else {
                    None
                },
            ));
        }
        i = i + 1;
    }
    Some(out)
}

/// Simple moving average over `period` closes: one entry per close, the first
/// `period - 1` entries `None` (all of them for a zero period or too short a series),
/// then the window sum divided by `period`.
pub fn sma(closes: &[Decimal], period: usize) -> (r: Vec<Option<Decimal>>)
    requires
        sma_spec(values_view(closes@), period as nat) is Some,
    ensures
        sma_spec(values_view(closes@), period as nat) == Some(series_view(r@)),
        r@.len() == closes@.len(),
        forall|i: int|
            0 <= i < r@.len() ==> (#[trigger] r@[i] is None <==> period == 0 || i + 1 < period),
{
    let r = try_sma(closes, period).unwrap();
    proof {
        let cs = values_view(closes@);
        if period > 0 {
            lemma_sma_shape(cs, period as nat, cs.len());
        }
        assert(series_view(r@).len() == r@.len());
        assert forall|i: int| 0 <= i < r@.len() implies (#[trigger] r@[i] is None <==> period == 0
            || i + 1 < period) by {
            assert(series_view(r@)[i] == crate::indicators::series::opt_view(r@[i]));
        }
    }
    r
}

} // verus!
