//! Moving average convergence/divergence.
use crate::decimal::{decimal_checked_sub, Decimal};
use crate::indicators::ema::{ema_spec, try_ema};
use crate::indicators::series::{nones, opt_view, series_view, values_view};
use vstd::prelude::*;

verus! {

/// The MACD line, its signal line and their difference, one entry per close.
pub struct MacdOutput {
    pub macd: Vec<Option<Decimal>>,
    pub signal: Vec<Option<Decimal>>,
    pub histogram: Vec<Option<Decimal>>,
}

/// The first `n` entries of `a - b`: a difference where both are present, `None`
/// elsewhere; `None` as a whole where a difference overflows.
pub open spec fn diff_series(a: Seq<Option<(int, nat)>>, b: Seq<Option<(int, nat)>>, n: nat) -> Option<
    Seq<Option<(int, nat)>>,
>
    decreases n,
{
    if n == 0 {
        Some(Seq::empty())
    } else {
        match diff_series(a, b, (n - 1) as nat) {
            None => None,
            Some(out) => match (a[n - 1], b[n - 1]) {
                (Some(x), Some(y)) => match decimal_checked_sub(x, y) {
                    None => None,
                    Some(d) => Some(out.push(Some(d))),
                },
                _ => Some(out.push(None)),
            },
        }
    }
}

/// The index of the first present entry at or after `i`, or the length if there is none.
pub open spec fn first_some_from(s: Seq<Option<(int, nat)>>, i: nat) -> nat
    decreases s.len() - i,
{
    if i >= s.len() {
        s.len()
    } else if s[i as int] is Some {
        i
    } else {
        first_some_from(s, i + 1)
    }
}

/// The present entries of `s`, in order.
pub open spec fn somes(s: Seq<Option<(int, nat)>>) -> Seq<(int, nat)>
    decreases s.len(),
{
    if s.len() == 0 {
        Seq::empty()
    } else {
        match s.last() {
            Some(x) => somes(s.drop_last()).push(x),
            None => somes(s.drop_last()),
        }
    }
}

/// `s` cut or padded with `None` to length `n`.
pub open spec fn resize_none(s: Seq<Option<(int, nat)>>, n: nat) -> Seq<Option<(int, nat)>> {
    Seq::new(n, |j: int| if j < s.len() { s[j] } else { None })
}

/// MACD of `cs`: the fast EMA minus the slow EMA; the signal is the `signal_period` EMA of
/// the MACD values from the first present one on, placed from that index and padded with
/// `None`; the histogram is MACD minus signal. `None` where a step overflows.
pub open spec fn macd_spec(cs: Seq<(int, nat)>, fast: nat, slow: nat, signal_period: nat) -> Option<
    (Seq<Option<(int, nat)>>, Seq<Option<(int, nat)>>, Seq<Option<(int, nat)>>),
> {
    match ema_spec(cs, fast) {
        None => None,
        Some(f) => match ema_spec(cs, slow) {
            None => None,
            Some(s) => match diff_series(f, s, cs.len()) {
                None => None,
                Some(m) => {
                    let first = first_some_from(m, 0);
                    match ema_spec(somes(m.subrange(first as int, m.len() as int)), signal_period) {
                        None => None,
                        Some(sd) => {
                            let signal = resize_none(nones(first) + sd, m.len());
                            match diff_series(m, signal, m.len()) {
                                None => None,
                                Some(h) => Some((m, signal, h)),
                            }
                        },
                    }
                },
            }
        },
    }
}

/// The difference series has `n` entries.
pub proof fn lemma_diff_series_len(a: Seq<Option<(int, nat)>>, b: Seq<Option<(int, nat)>>, n: nat)
    requires
        diff_series(a, b, n) is Some,
    ensures
        (diff_series(a, b, n)->0).len() == n,
    decreases n,
{
    if n > 0 {
        lemma_diff_series_len(a, b, (n - 1) as nat);
    }
}

proof fn lemma_diff_series_none(a: Seq<Option<(int, nat)>>, b: Seq<Option<(int, nat)>>, n: nat, k: nat)
    requires
        n <= k,
        diff_series(a, b, n) is None,
    ensures
        diff_series(a, b, k) is None,
    decreases k - n,
{
    if n < k {
        lemma_diff_series_none(a, b, n + 1, k);
    }
}

/// `first_some_from` lies between `i` and the length, and everything before it from `i`
/// on is `None`.
proof fn lemma_first_some(s: Seq<Option<(int, nat)>>, i: nat)
    requires
        i <= s.len(),
    ensures
        i <= first_some_from(s, i) <= s.len(),
        first_some_from(s, i) < s.len() ==> s[first_some_from(s, i) as int] is Some,
        forall|j: int| i <= j < first_some_from(s, i) ==> #[trigger] s[j] is None,
    decreases s.len() - i,
{
    if i < s.len() && s[i as int] is None {
        lemma_first_some(s, i + 1);
    }
}

/// The three lines have one entry per close.
pub proof fn lemma_macd_shape(cs: Seq<(int, nat)>, fast: nat, slow: nat, signal_period: nat)
    requires
        macd_spec(cs, fast, slow, signal_period) is Some,
    ensures
        (macd_spec(cs, fast, slow, signal_period)->0).0.len() == cs.len(),
        (macd_spec(cs, fast, slow, signal_period)->0).1.len() == cs.len(),
        (macd_spec(cs, fast, slow, signal_period)->0).2.len() == cs.len(),
{
    crate::indicators::ema::lemma_ema_shape(cs, fast);
    crate::indicators::ema::lemma_ema_shape(cs, slow);
    let f = ema_spec(cs, fast)->0;
    let s = ema_spec(cs, slow)->0;
    lemma_diff_series_len(f, s, cs.len());
    let m = diff_series(f, s, cs.len())->0;
    let first = first_some_from(m, 0);
    let sd = ema_spec(somes(m.subrange(first as int, m.len() as int)), signal_period)->0;
    let signal = resize_none(nones(first) + sd, m.len());
    lemma_diff_series_len(m, signal, m.len());
}

/// `a - b` entry by entry, or `None` where a difference overflows.
fn try_diff_series(a: &Vec<Option<Decimal>>, b: &Vec<Option<Decimal>>) -> (r: Option<
    Vec<Option<Decimal>>,
>)
    requires
        a@.len() == b@.len(),
    ensures
        match r {
            None => diff_series(series_view(a@), series_view(b@), a@.len()) is None,
            Some(v) => diff_series(series_view(a@), series_view(b@), a@.len()) == Some(
                series_view(v@),
            ),
        },
{
    let ghost sa = series_view(a@);
    let ghost sb = series_view(b@);
    let mut out: Vec<Option<Decimal>> = Vec::new();
    let mut i: usize = 0;
    while i < a.len()
        invariant
            i <= a@.len() == b@.len(),
            sa == series_view(a@),
            sb == series_view(b@),
            diff_series(sa, sb, i as nat) == Some(series_view(out@)),
        decreases a@.len() - i,
    {
        let ghost old_out = series_view(out@);
        assert(sa[i as int] == opt_view(a@[i as int]));
        assert(sb[i as int] == opt_view(b@[i as int]));
        match (&a[i], &b[i]) {
            (Some(x), Some(y)) => match x.checked_sub(y) {
                Some(d) => out.push(Some(d)),
                None => {
                    proof {
                        lemma_diff_series_none(sa, sb, (i + 1) as nat, a@.len() as nat);
                    }
                    return None;
                },
            },
            _ => out.push(None),
        }
        proof {
            assert(series_view(out@) =~= old_out.push(opt_view(out@.last())));
        }
        i = i + 1;
    }
    Some(out)
}

/// MACD, signal and histogram, or `None` where a step overflows.
pub fn try_macd(closes: &[Decimal], fast: usize, slow: usize, signal_period: usize) -> (r: Option<
    MacdOutput,
>)
    ensures
        match r {
            None => macd_spec(values_view(closes@), fast as nat, slow as nat, signal_period as nat)
                is None,
            Some(o) => macd_spec(values_view(closes@), fast as nat, slow as nat, signal_period as nat)
                == Some((series_view(o.macd@), series_view(o.signal@), series_view(o.histogram@))),
        },
{
    let ghost cs = values_view(closes@);
    let fast_ema = try_ema(closes, fast)?;
    let slow_ema = try_ema(closes, slow)?;
    proof {
        crate::indicators::ema::lemma_ema_shape(cs, fast as nat);
        crate::indicators::ema::lemma_ema_shape(cs, slow as nat);
        assert(series_view(fast_ema@).len() == fast_ema@.len());
        assert(series_view(slow_ema@).len() == slow_ema@.len());
    }
    let macd = try_diff_series(&fast_ema, &slow_ema)?;
    let ghost m = series_view(macd@);
    proof {
        lemma_diff_series_len(series_view(fast_ema@), series_view(slow_ema@), cs.len());
        assert(m.len() == macd@.len());
        lemma_first_some(m, 0);
    }
    // the first present MACD value
    let mut first: usize = 0;
    while first < macd.len() && macd[first].is_none()
        invariant
            first <= macd@.len(),
            m == series_view(macd@),
            first_some_from(m, 0) >= first,
            first_some_from(m, 0) <= m.len(),
            first_some_from(m, 0) < m.len() ==> m[first_some_from(m, 0) as int] is Some,
        decreases macd@.len() - first,
    {
        proof {
            assert(m[first as int] == opt_view(macd@[first as int]));
        }
        first = first + 1;
    }
    proof {
        if first < macd@.len() {
            assert(m[first as int] == opt_view(macd@[first as int]));
        }
        lemma_first_some_at(m, first as nat);
    }
    // the MACD values from there on
    let mut dense: Vec<Decimal> = Vec::new();
    let mut j: usize = first;
    while j < macd.len()
        invariant
            first <= j <= macd@.len(),
            m == series_view(macd@),
            values_view(dense@) == somes(m.subrange(first as int, j as int)),
        decreases macd@.len() - j,
    {
        let ghost old_dense = dense@;
        proof {
            assert(m.subrange(first as int, (j + 1) as int).drop_last() =~= m.subrange(
                first as int,
                j as int,
            ));
            assert(m[j as int] == opt_view(macd@[j as int]));
        }
        match &macd[j] {
            Some(x) => {
                dense.push(*x);
                proof {
                    assert(values_view(dense@) =~= values_view(old_dense).push(x@));
                }
            },
            None => {},
        }
        j = j + 1;
    }
    let sig_dense = try_ema(&dense, signal_period)?;
    let ghost sd = series_view(sig_dense@);
    proof {
        crate::indicators::ema::lemma_ema_shape(values_view(dense@), signal_period as nat);
        assert(sd.len() == sig_dense@.len());
    }
    // the signal placed from the first MACD value on, padded with `None`
    let ghost target = resize_none(nones(first as nat) + sd, m.len());
    let mut signal: Vec<Option<Decimal>> = Vec::new();
    let mut k: usize = 0;
    while k < macd.len()
        invariant
            k <= macd@.len() == m.len(),
            first <= macd@.len(),
            sd == series_view(sig_dense@),
            target == resize_none(nones(first as nat) + sd, m.len()),
            series_view(signal@) == target.subrange(0, k as int),
        decreases macd@.len() - k,
    {
        let ghost old_signal = series_view(signal@);
        if k < first {
            signal.push(None);
        } else if k - first < sig_dense.len() {
            signal.push(sig_dense[k - first]);
            proof {
                assert(sd[k - first] == opt_view(sig_dense@[k - first]));
            }
        } else {
            signal.push(None);
        }
        proof {
            assert(series_view(signal@) =~= old_signal.push(opt_view(signal@.last())));
            assert(target.subrange(0, (k + 1) as int) =~= target.subrange(0, k as int).push(
                target[k as int],
            ));
        }
        k = k + 1;
    }
    proof {
        assert(series_view(signal@) =~= target);
        assert(series_view(signal@).len() == signal@.len());
    }
    let histogram = try_diff_series(&macd, &signal)?;
    Some(MacdOutput { macd, signal, histogram })
}

/// Where the scan stops (at a present entry or at the end, with only `None` before it),
/// it has found `first_some_from(m, 0)`.
proof fn lemma_first_some_at(m: Seq<Option<(int, nat)>>, f: nat)
    requires
        f <= m.len(),
        f <= first_some_from(m, 0),
        f < m.len() ==> m[f as int] is Some,
    ensures
        first_some_from(m, 0) == f,
{
    lemma_first_some(m, 0);
}

/// MACD: the fast EMA minus the slow EMA where both are present; the signal line is the
/// `signal_period` EMA of the MACD values from the first present one on, placed from
/// that index and padded with `None`; the histogram is MACD minus signal where both are
/// present.
pub fn macd(closes: &[Decimal], fast: usize, slow: usize, signal_period: usize) -> (r: MacdOutput)
    requires
        macd_spec(values_view(closes@), fast as nat, slow as nat, signal_period as nat) is Some,
    ensures
        macd_spec(values_view(closes@), fast as nat, slow as nat, signal_period as nat) == Some(
            (series_view(r.macd@), series_view(r.signal@), series_view(r.histogram@)),
        ),
        r.macd@.len() == closes@.len(),
        r.signal@.len() == closes@.len(),
        r.histogram@.len() == closes@.len(),
{
    let r = try_macd(closes, fast, slow, signal_period).unwrap();
    proof {
        lemma_macd_shape(values_view(closes@), fast as nat, slow as nat, signal_period as nat);
        assert(series_view(r.macd@).len() == r.macd@.len());
        assert(series_view(r.signal@).len() == r.signal@.len());
        assert(series_view(r.histogram@).len() == r.histogram@.len());
    }
    r
}


/// Each entry of `a - b`: a difference, value of `a` first, where both are present, and
/// `None` elsewhere.
pub proof fn lemma_diff_series_at(a: Seq<Option<(int, nat)>>, b: Seq<Option<(int, nat)>>, n: nat)
    requires
        diff_series(a, b, n) is Some,
    ensures
        forall|i: int|
            0 <= i < n ==> (#[trigger] (diff_series(a, b, n)->0)[i] is Some <==> (a[i] is Some
                && b[i] is Some)) && ((diff_series(a, b, n)->0)[i] matches Some(d) ==> d
                == decimal_checked_sub(a[i]->0, b[i]->0)->0),
    decreases n,
{
    lemma_diff_series_len(a, b, n);
    if n > 0 {
        lemma_diff_series_len(a, b, (n - 1) as nat);
        lemma_diff_series_at(a, b, (n - 1) as nat);
        let prev = diff_series(a, b, (n - 1) as nat)->0;
        let all = diff_series(a, b, n)->0;
        assert forall|i: int| 0 <= i < n - 1 implies #[trigger] all[i] == prev[i] by {}
    }
}

/// The MACD line is the fast EMA minus the slow EMA: at every index it is present exactly
/// where both averages are, and then it is the fast average minus the slow one. The
/// histogram is the MACD line minus the signal line in the same way.
pub proof fn lemma_macd_is_fast_minus_slow(
    cs: Seq<(int, nat)>,
    fast: nat,
    slow: nat,
    signal_period: nat,
)
    requires
        macd_spec(cs, fast, slow, signal_period) is Some,
    ensures
        ({
            let o = macd_spec(cs, fast, slow, signal_period)->0;
            let f = ema_spec(cs, fast)->0;
            let s = ema_spec(cs, slow)->0;
            &&& o.0.len() == cs.len()
            &&& forall|i: int|
                0 <= i < cs.len() ==> (#[trigger] o.0[i] is Some <==> (f[i] is Some && s[i] is Some))
                    && (o.0[i] matches Some(m) ==> m == decimal_checked_sub(f[i]->0, s[i]->0)->0)
            &&& forall|i: int|
                0 <= i < cs.len() ==> (#[trigger] o.2[i] is Some <==> (o.0[i] is Some
                    && o.1[i] is Some)) && (o.2[i] matches Some(h) ==> h == decimal_checked_sub(
                    o.0[i]->0,
                    o.1[i]->0,
                )->0)
        }),
{
    lemma_macd_shape(cs, fast, slow, signal_period);
    let f = ema_spec(cs, fast)->0;
    let s = ema_spec(cs, slow)->0;
    let m = diff_series(f, s, cs.len())->0;
    lemma_diff_series_at(f, s, cs.len());
    lemma_diff_series_len(f, s, cs.len());
    let first = first_some_from(m, 0);
    let sd = ema_spec(somes(m.subrange(first as int, m.len() as int)), signal_period)->0;
    let signal = resize_none(nones(first) + sd, m.len());
    lemma_diff_series_at(m, signal, m.len());
}

} // verus!
