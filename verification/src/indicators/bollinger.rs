//! Bollinger bands.
use crate::decimal::{
    decimal_checked_add, decimal_checked_div, decimal_checked_mul, decimal_checked_sub, frac_add,
    frac_ge_int, frac_le_int, int_abs, lemma_pow10_add, lemma_pow10_positive, max_scale, pow10,
    quot_near, rounds_to, Decimal,
};
use crate::indicators::series::{nones, none_series, opt_view, series_view, values_view};
use crate::indicators::sma::{lemma_sma_shape, sma_spec, try_sma};
use vstd::prelude::*;

verus! {

/// The middle band (the moving average) and the bands above and below it.
pub struct BollingerOutput {
    pub middle: Vec<Option<Decimal>>,
    pub upper: Vec<Option<Decimal>>,
    pub lower: Vec<Option<Decimal>>,
}

/// `n` Newton steps `g := (g + x / g) / 2` from `g`; `None` where a step fails (a zero
/// guess or an overflow).
pub open spec fn newton_iter(x: (int, nat), g: (int, nat), n: nat) -> Option<(int, nat)>
    decreases n,
{
    if n == 0 {
        Some(g)
    } else {
        match newton_iter(x, g, (n - 1) as nat) {
            None => None,
            Some(h) => match decimal_checked_div(x, h) {
                None => None,
                Some(q) => match decimal_checked_add(h, q) {
                    None => None,
                    Some(s) => decimal_checked_div(s, (2int, 0nat)),
                },
            },
        }
    }
}

/// The square root as the bands compute it: zero for `x <= 0`, else 32 Newton steps
/// starting from `x` itself.
pub open spec fn sqrt_spec(x: (int, nat)) -> Option<(int, nat)> {
    if x.0 <= 0 {
        Some((0int, 0nat))
    } else {
        newton_iter(x, x, 32)
    }
}

/// The sum of `(c - m)^2` over the `n` closes from `start`, added in order.
pub open spec fn squares_sum(cs: Seq<(int, nat)>, m: (int, nat), start: int, n: nat) -> Option<
    (int, nat),
>
    decreases n,
{
    if n == 0 {
        Some((0int, 0nat))
    } else {
        match squares_sum(cs, m, start, (n - 1) as nat) {
            None => None,
            Some(v) => match decimal_checked_sub(cs[start + n - 1], m) {
                None => None,
                Some(d) => match decimal_checked_mul(d, d) {
                    None => None,
                    Some(sq) => decimal_checked_add(v, sq),
                },
            },
        }
    }
}

/// The bands at index `i` around the average `m`: `m ± k * sd`, where `sd` is the square
/// root of the mean squared deviation of the `period` closes ending at `i`.
pub open spec fn band_at(
    cs: Seq<(int, nat)>,
    period: nat,
    k: (int, nat),
    i: int,
    m: (int, nat),
) -> Option<((int, nat), (int, nat))> {
    match squares_sum(cs, m, i + 1 - period, period) {
        None => None,
        Some(v) => match decimal_checked_div(v, (period as int, 0nat)) {
            None => None,
            Some(var) => match sqrt_spec(var) {
                None => None,
                Some(sd) => match decimal_checked_mul(sd, k) {
                    None => None,
                    Some(w) => match decimal_checked_add(m, w) {
                        None => None,
                        Some(up) => match decimal_checked_sub(m, w) {
                            None => None,
                            Some(lo) => Some((up, lo)),
                        },
                    },
                },
            },
        },
    }
}

/// The upper and lower bands at the first `n` indices: present where the average is.
pub open spec fn bands_run(
    cs: Seq<(int, nat)>,
    period: nat,
    k: (int, nat),
    mid: Seq<Option<(int, nat)>>,
    n: nat,
) -> Option<(Seq<Option<(int, nat)>>, Seq<Option<(int, nat)>>)>
    decreases n,
{
    if n == 0 {
        Some((Seq::empty(), Seq::empty()))
    } else {
        match bands_run(cs, period, k, mid, (n - 1) as nat) {
            None => None,
            Some((u, l)) => match mid[n - 1] {
                None => Some((u.push(None), l.push(None))),
                Some(m) => match band_at(cs, period, k, n - 1, m) {
                    None => None,
                    Some((up, lo)) => Some((u.push(Some(up)), l.push(Some(lo)))),
                },
            },
        }
    }
}

/// Bollinger bands of `cs`: the `period` moving average and the bands `k` standard
/// deviations above and below it; `None` where a step fails.
pub open spec fn bollinger_spec(cs: Seq<(int, nat)>, period: nat, k: (int, nat)) -> Option<
    (Seq<Option<(int, nat)>>, Seq<Option<(int, nat)>>, Seq<Option<(int, nat)>>),
> {
    match sma_spec(cs, period) {
        None => None,
        Some(mid) => if period == 0 {
            Some((mid, nones(cs.len()), nones(cs.len())))
        } else {
            match bands_run(cs, period, k, mid, cs.len()) {
                None => None,
                Some((u, l)) => Some((mid, u, l)),
            }
        },
    }
}

/// The bands have one entry per index.
proof fn lemma_bands_len(
    cs: Seq<(int, nat)>,
    period: nat,
    k: (int, nat),
    mid: Seq<Option<(int, nat)>>,
    n: nat,
)
    requires
        bands_run(cs, period, k, mid, n) is Some,
    ensures
        (bands_run(cs, period, k, mid, n)->0).0.len() == n,
        (bands_run(cs, period, k, mid, n)->0).1.len() == n,
    decreases n,
{
    if n > 0 {
        lemma_bands_len(cs, period, k, mid, (n - 1) as nat);
    }
}

/// The three bands have one entry per close.
pub proof fn lemma_bollinger_shape(cs: Seq<(int, nat)>, period: nat, k: (int, nat))
    requires
        bollinger_spec(cs, period, k) is Some,
    ensures
        (bollinger_spec(cs, period, k)->0).0.len() == cs.len(),
        (bollinger_spec(cs, period, k)->0).1.len() == cs.len(),
        (bollinger_spec(cs, period, k)->0).2.len() == cs.len(),
{
    if period > 0 {
        lemma_sma_shape(cs, period, cs.len());
        let mid = sma_spec(cs, period)->0;
        lemma_bands_len(cs, period, k, mid, cs.len());
    }
}

proof fn lemma_newton_none(x: (int, nat), g: (int, nat), n: nat, k: nat)
    requires
        n <= k,
        newton_iter(x, g, n) is None,
    ensures
        newton_iter(x, g, k) is None,
    decreases k - n,
{
    if n < k {
        lemma_newton_none(x, g, n + 1, k);
    }
}

proof fn lemma_squares_none(cs: Seq<(int, nat)>, m: (int, nat), start: int, n: nat, k: nat)
    requires
        n <= k,
        squares_sum(cs, m, start, n) is None,
    ensures
        squares_sum(cs, m, start, k) is None,
    decreases k - n,
{
    if n < k {
        lemma_squares_none(cs, m, start, n + 1, k);
    }
}

proof fn lemma_bands_none(
    cs: Seq<(int, nat)>,
    period: nat,
    k: (int, nat),
    mid: Seq<Option<(int, nat)>>,
    n: nat,
    j: nat,
)
    requires
        n <= j,
        bands_run(cs, period, k, mid, n) is None,
    ensures
        bands_run(cs, period, k, mid, j) is None,
    decreases j - n,
{
    if n < j {
        lemma_bands_none(cs, period, k, mid, n + 1, j);
    }
}

/// `10^28`: one unit at the finest scale a decimal has is `1 / finest()`.
pub open spec fn finest() -> int {
    pow10(max_scale())
}

/// The value of a decimal (of at most 28 places) as a whole number of `10^-28` units.
pub open spec fn units(x: (int, nat)) -> int {
    x.0 * pow10((max_scale() - x.1) as nat)
}

/// `10^s * 10^(28 - s) == 10^28`, and both factors are positive.
proof fn lemma_units_scale(s: nat)
    requires
        s <= max_scale(),
    ensures
        pow10(s) * pow10((max_scale() - s) as nat) == finest(),
        pow10(s) >= 1,
        1 <= pow10((max_scale() - s) as nat) <= finest(),
{
    lemma_pow10_add(s, (max_scale() - s) as nat);
    lemma_pow10_positive(s);
    lemma_pow10_positive((max_scale() - s) as nat);
    let a = pow10(s);
    let b = pow10((max_scale() - s) as nat);
    assert(b <= a * b) by (nonlinear_arith)
        requires
            a >= 1,
            b >= 1,
    ;
}

/// `(a * b) * (c * d) == (a * d) * (b * c)`.
proof fn lemma_regroup4(a: int, b: int, c: int, d: int)
    ensures
        (a * b) * (c * d) == (a * d) * (b * c),
{
    assert((a * b) * (c * d) == (a * d) * (b * c)) by (nonlinear_arith);
}

/// `(a * b) * c * (d * e * f) == (a * e) * (b * f) * (c * d)`.
proof fn lemma_regroup6(a: int, b: int, c: int, d: int, e: int, f: int)
    ensures
        (a * b) * c * (d * e * f) == (a * e) * (b * f) * (c * d),
{
    broadcast use vstd::arithmetic::mul::group_mul_properties;

    let x = a * b;
    let y = d * e * f;
    assert(x * c * y == x * (c * y));
    assert(c * y == (c * d) * (e * f));
    assert(x * ((c * d) * (e * f)) == (x * (e * f)) * (c * d));
    assert(x * (e * f) == (a * e) * (b * f));
}

/// A quotient rounded to its last place, in `10^-28` units: `2 |q b - a S| <= b S` for a
/// positive divisor, with `S = 10^28`.
proof fn lemma_quot_units(q: (int, nat), a: (int, nat), b: (int, nat))
    requires
        quot_near(q, a, b),
        q.1 <= max_scale(),
        a.1 <= max_scale(),
        b.1 <= max_scale(),
        b.0 > 0,
    ensures
        2 * int_abs(units(q) * units(b) - units(a) * finest()) <= units(b) * finest(),
{
    lemma_units_scale(q.1);
    lemma_units_scale(a.1);
    lemma_units_scale(b.1);
    let sf = finest();
    let (pq, pa, pb) = (pow10(q.1), pow10(a.1), pow10(b.1));
    let cq = pow10((max_scale() - q.1) as nat);
    let ca = pow10((max_scale() - a.1) as nat);
    let cb = pow10((max_scale() - b.1) as nat);
    let n = a.0 * pb;
    let d = b.0 * pa;
    let e = q.0 * d - n * pq;
    let m = cq * ca * cb;
    assert(d > 0) by (nonlinear_arith)
        requires
            b.0 > 0,
            pa >= 1,
            d == b.0 * pa,
    ;
    assert(2 * int_abs(e) <= d);
    assert(m > 0) by (nonlinear_arith)
        requires
            cq >= 1,
            ca >= 1,
            cb >= 1,
            m == cq * ca * cb,
    ;
    assert(2 * int_abs(e) * m <= d * m) by (nonlinear_arith)
        requires
            2 * int_abs(e) <= d,
            m > 0,
    ;
    let qu = units(q);
    let au = units(a);
    let bu = units(b);
    assert(q.0 * d * m == qu * bu * sf) by (nonlinear_arith)
        requires
            qu == q.0 * cq,
            bu == b.0 * cb,
            d == b.0 * pa,
            m == cq * ca * cb,
            pa * ca == sf,
    ;
    lemma_regroup6(a.0, pb, pq, cq, ca, cb);
    assert(n * pq * m == (a.0 * ca) * (pb * cb) * (pq * cq));
    assert(d * m == bu * sf * cq) by (nonlinear_arith)
        requires
            bu == b.0 * cb,
            d == b.0 * pa,
            m == cq * ca * cb,
            pa * ca == sf,
    ;
    let f = qu * bu - au * sf;
    assert(e * m == f * sf) by (nonlinear_arith)
        requires
            e == q.0 * d - n * pq,
            q.0 * d * m == qu * bu * sf,
            n * pq * m == au * sf * sf,
            f == qu * bu - au * sf,
    ;
    assert(int_abs(e) * m == int_abs(f) * sf) by (nonlinear_arith)
        requires
            e * m == f * sf,
            m > 0,
            sf > 0,
    ;
    assert(bu > 0) by (nonlinear_arith)
        requires
            bu == b.0 * cb,
            b.0 > 0,
            cb >= 1,
    ;
    assert(2 * int_abs(f) <= bu * cq) by (nonlinear_arith)
        requires
            2 * int_abs(e) * m <= d * m,
            int_abs(e) * m == int_abs(f) * sf,
            d * m == bu * sf * cq,
            sf > 0,
    ;
    assert(bu * cq <= bu * sf) by (nonlinear_arith)
        requires
            bu > 0,
            cq <= sf,
    ;
}

/// A sum rounded at some scale, in `10^-28` units: within one whole unit of the exact sum.
proof fn lemma_sum_units(s: (int, nat), g: (int, nat), q: (int, nat))
    requires
        rounds_to(s, frac_add(g, q)),
        s.1 <= max_scale(),
        g.1 <= max_scale(),
        q.1 <= max_scale(),
    ensures
        units(g) + units(q) - finest() <= units(s) <= units(g) + units(q) + finest(),
{
    lemma_units_scale(s.1);
    lemma_units_scale(g.1);
    lemma_units_scale(q.1);
    let sf = finest();
    let t = units(g) + units(q);
    let k = t / sf;
    assert(k * sf <= t < (k + 1) * sf) by (nonlinear_arith)
        requires
            sf > 0,
            k == t / sf,
    ;
    let ex = frac_add(g, q);
    let (pg, pq) = (pow10(g.1), pow10(q.1));
    let cg = pow10((max_scale() - g.1) as nat);
    let cq = pow10((max_scale() - q.1) as nat);
    lemma_pow10_add(g.1, q.1);
    let pe = pow10(ex.1);
    assert(pe == pg * pq);
    assert(ex.0 * sf == (g.0 * pq) * sf + (q.0 * pg) * sf) by (nonlinear_arith)
        requires
            ex.0 == g.0 * pq + q.0 * pg,
    ;
    assert(t * pe == (g.0 * cg) * pe + (q.0 * cq) * pe) by (nonlinear_arith)
        requires
            t == g.0 * cg + q.0 * cq,
    ;
    lemma_regroup4(g.0, cg, pg, pq);
    lemma_regroup4(q.0, cq, pq, pg);
    assert((g.0 * cg) * (pg * pq) == (g.0 * pq) * (pg * cg));
    assert((q.0 * cq) * (pq * pg) == (q.0 * pg) * (pq * cq));
    assert(pq * pg == pg * pq) by (nonlinear_arith);
    assert(ex.0 * sf == t * pe);
    assert(pe > 0) by (nonlinear_arith)
        requires
            pe == pg * pq,
            pg >= 1,
            pq >= 1,
    ;
    assert(ex.0 >= k * pe) by (nonlinear_arith)
        requires
            ex.0 * sf == t * pe,
            k * sf <= t,
            pe > 0,
            sf > 0,
    ;
    assert(ex.0 <= (k + 1) * pe) by (nonlinear_arith)
        requires
            ex.0 * sf == t * pe,
            t < (k + 1) * sf,
            pe > 0,
            sf > 0,
    ;
    assert(frac_ge_int(ex, k));
    assert(frac_le_int(ex, k + 1));
    assert(frac_ge_int(s, k));
    assert(frac_le_int(s, k + 1));
    let ps = pow10(s.1);
    let cs = pow10((max_scale() - s.1) as nat);
    assert(units(s) >= k * sf) by (nonlinear_arith)
        requires
            s.0 >= k * ps,
            ps * cs == sf,
            cs >= 1,
            units(s) == s.0 * cs,
    ;
    assert(units(s) <= (k + 1) * sf) by (nonlinear_arith)
        requires
            s.0 <= (k + 1) * ps,
            ps * cs == sf,
            cs >= 1,
            units(s) == s.0 * cs,
    ;    assert((k + 1) * sf == k * sf + sf) by (nonlinear_arith);
}

/// `2^n`.
pub open spec fn two_pow(n: nat) -> int
    decreases n,
{
    if n == 0 {
        1
    } else {
        2 * two_pow((n - 1) as nat)
    }
}

/// `w` is the whole number at or just above the square root of `v`, and at least 5:
/// `(w - 1)^2 <= v <= w^2`.
pub open spec fn root_bracket(v: (int, nat), w: int) -> bool {
    &&& w >= 5
    &&& (w - 1) * (w - 1) * finest() <= units(v)
    &&& units(v) <= w * w * finest()
}

/// One Newton step `h = (g + v / g) / 2`, each operation rounded as `rust_decimal` does,
/// stays above the square root less a little: with `(w - 1)^2 <= v`, `h >= w - 9/4`.
proof fn lemma_newton_lower(v: int, g: int, q: int, m: int, h: int, sf: int, w: int)
    requires
        sf > 0,
        g > 0,
        2 * int_abs(q * g - v * sf) <= g * sf,
        g + q - sf <= m,
        m - sf <= 2 * h,
        (w - 1) * (w - 1) * sf <= v,
    ensures
        4 * h >= (4 * w - 9) * sf,
{
    let qg = q * g;
    let vs = v * sf;
    let gs = g * sf;
    let hg = h * g;
    let gg = g * g;
    let c = w - 1;
    assert(2 * qg >= 2 * vs - gs);
    assert(4 * h >= 2 * g + 2 * q - 4 * sf);
    assert(4 * hg >= 2 * gg + 2 * qg - 4 * gs) by (nonlinear_arith)
        requires
            4 * h >= 2 * g + 2 * q - 4 * sf,
            g > 0,
            hg == h * g,
            gg == g * g,
            qg == q * g,
            gs == g * sf,
    ;
    let u = g - c * sf;
    assert(gg + c * c * sf * sf - 2 * c * gs == u * u) by (nonlinear_arith)
        requires
            u == g - c * sf,
            gg == g * g,
            gs == g * sf,
    ;
    assert(u * u >= 0) by (nonlinear_arith);
    assert(vs >= c * c * sf * sf) by (nonlinear_arith)
        requires
            c * c * sf <= v,
            sf > 0,
            vs == v * sf,
            c == w - 1,
    ;
    assert(4 * hg >= (4 * w - 9) * gs) by (nonlinear_arith)
        requires
            4 * hg >= 2 * gg + 2 * qg - 4 * gs,
            2 * qg >= 2 * vs - gs,
            vs >= c * c * sf * sf,
            gg + c * c * sf * sf - 2 * c * gs >= 0,
            c == w - 1,
    ;
    assert(4 * h >= (4 * w - 9) * sf) by (nonlinear_arith)
        requires
            4 * hg >= (4 * w - 9) * gs,
            hg == h * g,
            gs == g * sf,
            g > 0,
    ;
}

/// One Newton step, each operation rounded as `rust_decimal` does, at least halves the
/// excess over `w + 7`: with `v <= w^2`, `w >= 5` and `g >= w - 9/4`,
/// `2 h <= g + (w + 7)`.
proof fn lemma_newton_upper(v: int, g: int, q: int, m: int, h: int, sf: int, w: int)
    requires
        sf > 0,
        g > 0,
        w >= 5,
        2 * int_abs(q * g - v * sf) <= g * sf,
        m <= g + q + sf,
        2 * h <= m + sf,
        v <= w * w * sf,
        4 * g >= (4 * w - 9) * sf,
    ensures
        2 * h <= g + (w + 7) * sf,
{
    let qg = q * g;
    let vs = v * sf;
    let gs = g * sf;
    let ww = w * w * sf * sf;
    assert(2 * qg <= 2 * vs + gs);
    assert(vs <= ww) by (nonlinear_arith)
        requires
            v <= w * w * sf,
            sf > 0,
            vs == v * sf,
            ww == w * w * sf * sf,
    ;
    assert((2 * w + 9) * gs >= 2 * ww) by (nonlinear_arith)
        requires
            4 * g >= (4 * w - 9) * sf,
            w >= 5,
            sf > 0,
            gs == g * sf,
            ww == w * w * sf * sf,
    ;
    assert(qg <= (w + 5) * gs) by (nonlinear_arith)
        requires
            2 * qg <= 2 * vs + gs,
            vs <= ww,
            (2 * w + 9) * gs >= 2 * ww,
    ;
    assert(q <= (w + 5) * sf) by (nonlinear_arith)
        requires
            qg <= (w + 5) * gs,
            qg == q * g,
            gs == g * sf,
            g > 0,
    ;
    assert((w + 7) * sf == (w + 5) * sf + 2 * sf) by (nonlinear_arith);
}

/// The sign of a value in `10^-28` units is the sign of its mantissa.
proof fn lemma_units_sign(x: (int, nat))
    requires
        x.1 <= max_scale(),
    ensures
        units(x) > 0 <==> x.0 > 0,
        units(x) <= 0 <==> x.0 <= 0,
{
    lemma_units_scale(x.1);
    let c = pow10((max_scale() - x.1) as nat);
    assert(x.0 > 0 ==> x.0 * c > 0) by (nonlinear_arith)
        requires
            c >= 1,
    ;
    assert(x.0 <= 0 ==> x.0 * c <= 0) by (nonlinear_arith)
        requires
            c >= 1,
    ;
}

/// One step of the square root keeps both bounds: above `w - 9/4`, and the excess over
/// `w + 7` (times `2^n`) below `v`.
proof fn lemma_newton_step(
    x: (int, nat),
    g: (int, nat),
    q: (int, nat),
    s: (int, nat),
    h: (int, nat),
    n: nat,
    w: int,
)
    requires
        x.1 <= max_scale(),
        g.1 <= max_scale(),
        q.1 <= max_scale(),
        s.1 <= max_scale(),
        h.1 <= max_scale(),
        quot_near(q, x, g),
        rounds_to(s, frac_add(g, q)),
        quot_near(h, s, (2int, 0nat)),
        root_bracket(x, w),
        4 * units(g) >= (4 * w - 9) * finest(),
        two_pow(n) * (units(g) - (w + 7) * finest()) <= units(x),
    ensures
        4 * units(h) >= (4 * w - 9) * finest(),
        two_pow(n + 1) * (units(h) - (w + 7) * finest()) <= units(x),
{
    let sf = finest();
    lemma_pow10_positive(max_scale());
    let v = units(x);
    let gu = units(g);
    let qu = units(q);
    let mu = units(s);
    let hu = units(h);
    assert(gu > 0) by (nonlinear_arith)
        requires
            4 * gu >= (4 * w - 9) * sf,
            w >= 5,
            sf > 0,
    ;
    lemma_units_sign(g);
    lemma_quot_units(q, x, g);
    lemma_sum_units(s, g, q);
    assert(pow10(0) == 1);
    assert(units((2int, 0nat)) == 2 * sf);
    lemma_quot_units(h, s, (2int, 0nat));
    assert(2 * int_abs(hu * (2 * sf) - mu * sf) <= 2 * sf * sf);
    assert(int_abs(2 * hu - mu) * sf <= sf * sf) by (nonlinear_arith)
        requires
            2 * int_abs(hu * (2 * sf) - mu * sf) <= 2 * sf * sf,
            sf > 0,
    ;
    assert(int_abs(2 * hu - mu) <= sf) by (nonlinear_arith)
        requires
            int_abs(2 * hu - mu) * sf <= sf * sf,
            sf > 0,
    ;
    lemma_newton_lower(v, gu, qu, mu, hu, sf, w);
    lemma_newton_upper(v, gu, qu, mu, hu, sf, w);
    let c = (w + 7) * sf;
    assert(two_pow(n + 1) == 2 * two_pow(n));
    lemma_two_pow_positive(n);
    assert(two_pow(n + 1) * (hu - c) <= two_pow(n) * (gu - c)) by (nonlinear_arith)
        requires
            two_pow(n + 1) == 2 * two_pow(n),
            two_pow(n) > 0,
            2 * hu <= gu + c,
    ;
}

/// `2^n` is positive.
proof fn lemma_two_pow_positive(n: nat)
    ensures
        two_pow(n) > 0,
    decreases n,
{
    if n > 0 {
        lemma_two_pow_positive((n - 1) as nat);
    }
}

/// Square root by 32 Newton steps from `x`; zero for `x <= 0`. For `x` with
/// `(w - 1)^2 <= x <= w^2` for a whole number `w >= 5` (so `w` is the square root rounded
/// up), the result lies between `w - 9/4` and `w + 7 + x / 2^32`: each step, with its
/// roundings, stays above the root less a little and halves the excess over it.
pub fn sqrt_decimal(x: &Decimal) -> (r: Option<Decimal>)
    ensures
        opt_view(r) == sqrt_spec(x@),
        r matches Some(sd) ==> forall|w: int|
            #[trigger] root_bracket(x@, w) ==> 4 * units(sd@) >= (4 * w - 9) * finest()
                && two_pow(32) * (units(sd@) - (w + 7) * finest()) <= units(x@),
{
    x.check_wf();
    if !x.is_positive() {
        proof {
            lemma_units_sign(x@);
            lemma_pow10_positive(max_scale());
            assert forall|w: int| #[trigger] root_bracket(x@, w) implies false by {
                assert((w - 1) * (w - 1) >= 16) by (nonlinear_arith)
                    requires
                        w >= 5,
                ;
                assert((w - 1) * (w - 1) * finest() > 0) by (nonlinear_arith)
                    requires
                        (w - 1) * (w - 1) >= 16,
                        finest() > 0,
                ;
            }
        }
        return Some(Decimal::zero());
    }
    let two = Decimal::from_int(2);
    let mut guess = *x;
    let mut n: usize = 0;
    proof {
        lemma_pow10_positive(max_scale());
        assert forall|w: int| #[trigger] root_bracket(x@, w) implies 4 * units(guess@) >= (4 * w
            - 9) * finest() && two_pow(0) * (units(guess@) - (w + 7) * finest()) <= units(x@) by {
            assert(4 * ((w - 1) * (w - 1)) >= 4 * w - 9) by (nonlinear_arith);
            assert(4 * ((w - 1) * (w - 1) * finest()) >= (4 * w - 9) * finest()) by (nonlinear_arith)
                requires
                    4 * ((w - 1) * (w - 1)) >= 4 * w - 9,
                    finest() > 0,
            ;
            assert((w + 7) * finest() > 0) by (nonlinear_arith)
                requires
                    w >= 5,
                    finest() > 0,
            ;
        }
    }
    while n < 32
        invariant
            n <= 32,
            x@.0 > 0,
            x@.1 <= max_scale(),
            two@ == (2int, 0nat),
            newton_iter(x@, x@, n as nat) == Some(guess@),
            forall|w: int|
                #[trigger] root_bracket(x@, w) ==> 4 * units(guess@) >= (4 * w - 9) * finest()
                    && two_pow(n as nat) * (units(guess@) - (w + 7) * finest()) <= units(x@),
        decreases 32 - n,
    {
        guess.check_wf();
        let q = match x.checked_div(&guess) {
            Some(q) => q,
            None => {
                proof {
                    lemma_newton_none(x@, x@, (n + 1) as nat, 32);
                }
                return None;
            },
        };
        q.check_wf();
        let s = match guess.checked_add(&q) {
            Some(s) => s,
            None => {
                proof {
                    lemma_newton_none(x@, x@, (n + 1) as nat, 32);
                }
                return None;
            },
        };
        s.check_wf();
        let g = match s.checked_div(&two) {
            Some(g) => g,
            None => {
                proof {
                    lemma_newton_none(x@, x@, (n + 1) as nat, 32);
                }
                return None;
            },
        };
        g.check_wf();
        proof {
            assert forall|w: int| #[trigger] root_bracket(x@, w) implies 4 * units(g@) >= (4 * w
                - 9) * finest() && two_pow((n + 1) as nat) * (units(g@) - (w + 7) * finest())
                <= units(x@) by {
                lemma_newton_step(x@, guess@, q@, s@, g@, n as nat, w);
            }
        }
        guess = g;
        n = n + 1;
    }
    Some(guess)
}

/// The sum of squared deviations from `m` over the `period` closes from `start`.
fn squares(closes: &[Decimal], m: &Decimal, start: usize, period: usize) -> (r: Option<Decimal>)
    requires
        start + period <= closes@.len(),
    ensures
        opt_view(r) == squares_sum(values_view(closes@), m@, start as int, period as nat),
{
    let ghost cs = values_view(closes@);
    let mut var = Decimal::zero();
    let mut j: usize = 0;
    let len = closes.len();
    while j < period
        invariant
            j <= period,
            start + period <= closes@.len() == len,
            cs == values_view(closes@),
            squares_sum(cs, m@, start as int, j as nat) == Some(var@),
        decreases period - j,
    {
        let step = match closes[start + j].checked_sub(m) {
            Some(d) => match d.checked_mul(&d) {
                Some(sq) => var.checked_add(&sq),
                None => None,
            },
            None => None,
        };
        match step {
            Some(v) => var = v,
            None => {
                proof {
                    lemma_squares_none(cs, m@, start as int, (j + 1) as nat, period as nat);
                }
                return None;
            },
        }
        j = j + 1;
    }
    Some(var)
}

/// The upper and lower band at index `i` around the average `m`.
fn band(closes: &[Decimal], period: usize, k: &Decimal, i: usize, m: &Decimal) -> (r: Option<
    (Decimal, Decimal),
>)
    requires
        period > 0,
        i + 1 >= period,
        i < closes@.len(),
    ensures
        match r {
            None => band_at(values_view(closes@), period as nat, k@, i as int, m@) is None,
            Some((up, lo)) => band_at(values_view(closes@), period as nat, k@, i as int, m@) == Some(
                (up@, lo@),
            ),
        },
{
    let start = i - (period - 1);
    let var = squares(closes, m, start, period)?;
    let var = var.checked_div(&Decimal::from_u64(period as u64))?;
    let sd = sqrt_decimal(&var)?;
    let w = sd.checked_mul(k)?;
    let up = m.checked_add(&w)?;
    let lo = m.checked_sub(&w)?;
    Some((up, lo))
}

/// The three bands, or `None` where a step fails.
pub fn try_bollinger(closes: &[Decimal], period: usize, k: Decimal) -> (r: Option<BollingerOutput>)
    ensures
        match r {
            None => bollinger_spec(values_view(closes@), period as nat, k@) is None,
            Some(o) => bollinger_spec(values_view(closes@), period as nat, k@) == Some(
                (series_view(o.middle@), series_view(o.upper@), series_view(o.lower@)),
            ),
        },
{
    let ghost cs = values_view(closes@);
    let middle = try_sma(closes, period)?;
    let ghost mid = series_view(middle@);
    if period == 0 {
        let upper = none_series(closes.len());
        let lower = none_series(closes.len());
        return Some(BollingerOutput { middle, upper, lower });
    }
    proof {
        lemma_sma_shape(cs, period as nat, cs.len());
        assert(mid.len() == middle@.len());
    }
    let mut upper: Vec<Option<Decimal>> = Vec::new();
    let mut lower: Vec<Option<Decimal>> = Vec::new();
    let mut i: usize = 0;
    while i < middle.len()
        invariant
            i <= middle@.len() == cs.len(),
            period > 0,
            cs == values_view(closes@),
            mid == series_view(middle@),
            sma_spec(cs, period as nat) == Some(mid),
            forall|j: int| 0 <= j < mid.len() ==> (#[trigger] mid[j] is None <==> j + 1 < period),
            bands_run(cs, period as nat, k@, mid, i as nat) == Some(
                (series_view(upper@), series_view(lower@)),
            ),
        decreases middle@.len() - i,
    {
        let ghost old_u = series_view(upper@);
        let ghost old_l = series_view(lower@);
        proof {
            assert(mid[i as int] == opt_view(middle@[i as int]));
        }
        match &middle[i] {
            None => {
                upper.push(None);
                lower.push(None);
            },
            Some(m) => match band(closes, period, &k, i, m) {
                Some((up, lo)) => {
                    upper.push(Some(up));
                    lower.push(Some(lo));
                },
                None => {
                    proof {
                        lemma_bands_none(cs, period as nat, k@, mid, (i + 1) as nat, cs.len());
                    }
                    return None;
                },
            },
        }
        proof {
            assert(series_view(upper@) =~= old_u.push(opt_view(upper@.last())));
            assert(series_view(lower@) =~= old_l.push(opt_view(lower@.last())));
        }
        i = i + 1;
    }
    Some(BollingerOutput { middle, upper, lower })
}

/// Bollinger bands: the `period` moving average as the middle band, and `middle ± k * sd`
/// where `sd` is the square root (32 Newton steps) of the mean squared deviation of the
/// `period` closes ending there; the bands are `None` where the average is.
pub fn bollinger(closes: &[Decimal], period: usize, k: Decimal) -> (r: BollingerOutput)
    requires
        bollinger_spec(values_view(closes@), period as nat, k@) is Some,
    ensures
        bollinger_spec(values_view(closes@), period as nat, k@) == Some(
            (series_view(r.middle@), series_view(r.upper@), series_view(r.lower@)),
        ),
        r.middle@.len() == closes@.len(),
        r.upper@.len() == closes@.len(),
        r.lower@.len() == closes@.len(),
{
    let r = try_bollinger(closes, period, k).unwrap();
    proof {
        lemma_bollinger_shape(values_view(closes@), period as nat, k@);
        assert(series_view(r.middle@).len() == r.middle@.len());
        assert(series_view(r.upper@).len() == r.upper@.len());
        assert(series_view(r.lower@).len() == r.lower@.len());
    }
    r
}

} // verus!
