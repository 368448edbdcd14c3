//! The standard indicator set over a candle history: SMA(20), SMA(50), EMA(20),
//! RSI(14), MACD(12, 26, 9) and Bollinger(20, 2), as whole series or as their latest
//! values.
use crate::candle::Candle;
use crate::decimal::{opt_view, Decimal};
use crate::indicators::bollinger::{bollinger_spec, try_bollinger};
use crate::indicators::ema::{ema_spec, try_ema};
use crate::indicators::macd::{macd_spec, try_macd};
use crate::indicators::rsi::{rsi_spec, try_rsi};
use crate::indicators::series::{series_view, values_view};
use crate::indicators::sma::{sma_spec, try_sma};
use vstd::prelude::*;

verus! {

/// The latest value of each indicator.
#[derive(Debug, Clone, Copy)]
pub struct IndicatorSnapshot {
    pub sma_20: Option<Decimal>,
    pub sma_50: Option<Decimal>,
    pub ema_20: Option<Decimal>,
    pub rsi_14: Option<Decimal>,
    pub macd: Option<Decimal>,
    pub macd_signal: Option<Decimal>,
    pub bollinger_upper: Option<Decimal>,
    pub bollinger_lower: Option<Decimal>,
}

/// Every indicator as a series aligned with the candles; `None` fills the warm-up
/// window.
#[derive(Debug)]
pub struct IndicatorSeries {
    pub sma_20: Vec<Option<Decimal>>,
    pub sma_50: Vec<Option<Decimal>>,
    pub ema_20: Vec<Option<Decimal>>,
    pub rsi_14: Vec<Option<Decimal>>,
    pub macd: Vec<Option<Decimal>>,
    pub macd_signal: Vec<Option<Decimal>>,
    pub macd_histogram: Vec<Option<Decimal>>,
    pub bollinger_upper: Vec<Option<Decimal>>,
    pub bollinger_lower: Vec<Option<Decimal>>,
}

/// A series of optional values, by view.
pub type SeriesView = Seq<Option<(int, nat)>>;

/// The view of the nine series, in field order.
pub type IndicatorSeriesView = (
    SeriesView,
    SeriesView,
    SeriesView,
    SeriesView,
    SeriesView,
    SeriesView,
    SeriesView,
    SeriesView,
    SeriesView,
);

/// The view of the eight latest values, in field order.
pub type IndicatorSnapshotView = (
    Option<(int, nat)>,
    Option<(int, nat)>,
    Option<(int, nat)>,
    Option<(int, nat)>,
    Option<(int, nat)>,
    Option<(int, nat)>,
    Option<(int, nat)>,
    Option<(int, nat)>,
);

impl View for IndicatorSeries {
    type V = IndicatorSeriesView;

    open spec fn view(&self) -> IndicatorSeriesView {
        (
            series_view(self.sma_20@),
            series_view(self.sma_50@),
            series_view(self.ema_20@),
            series_view(self.rsi_14@),
            series_view(self.macd@),
            series_view(self.macd_signal@),
            series_view(self.macd_histogram@),
            series_view(self.bollinger_upper@),
            series_view(self.bollinger_lower@),
        )
    }
}

impl View for IndicatorSnapshot {
    type V = IndicatorSnapshotView;

    open spec fn view(&self) -> IndicatorSnapshotView {
        (
            opt_view(self.sma_20),
            opt_view(self.sma_50),
            opt_view(self.ema_20),
            opt_view(self.rsi_14),
            opt_view(self.macd),
            opt_view(self.macd_signal),
            opt_view(self.bollinger_upper),
            opt_view(self.bollinger_lower),
        )
    }
}

/// The closing amounts of a candle history.
pub open spec fn closes_of(candles: Seq<Candle>) -> Seq<(int, nat)> {
    candles.map_values(|c: Candle| c.close@.0)
}

/// The nine series over `cs`; `None` where an indicator overflows.
pub open spec fn series_spec(cs: Seq<(int, nat)>) -> Option<IndicatorSeriesView> {
    match (
        sma_spec(cs, 20),
        sma_spec(cs, 50),
        ema_spec(cs, 20),
        rsi_spec(cs, 14),
        macd_spec(cs, 12, 26, 9),
        bollinger_spec(cs, 20, (2int, 0nat)),
    ) {
        (Some(s20), Some(s50), Some(e20), Some(r14), Some(m), Some(b)) => Some(
            (s20, s50, e20, r14, m.0, m.1, m.2, b.1, b.2),
        ),
        _ => None,
    }
}

/// The last entry of a series, `None` for an empty one.
pub open spec fn last_of(s: SeriesView) -> Option<(int, nat)> {
    if s.len() == 0 {
        None
    } else {
        s.last()
    }
}

/// The latest values over `cs`; `None` where an indicator overflows.
pub open spec fn snapshot_spec(cs: Seq<(int, nat)>) -> Option<IndicatorSnapshotView> {
    match series_spec(cs) {
        None => None,
        Some(s) => Some(
            (
                last_of(s.0),
                last_of(s.1),
                last_of(s.2),
                last_of(s.3),
                last_of(s.4),
                last_of(s.5),
                last_of(s.7),
                last_of(s.8),
            ),
        ),
    }
}

/// The closing amounts of `candles`.
pub fn closes(candles: &[Candle]) -> (r: Vec<Decimal>)
    ensures
        values_view(r@) == closes_of(candles@),
{
    let mut out: Vec<Decimal> = Vec::new();
    let mut i: usize = 0;
    while i < candles.len()
        invariant
            i <= candles@.len(),
            values_view(out@) == closes_of(candles@).take(i as int),
        decreases candles@.len() - i,
    {
        let ghost before = out@;
        let c = candles[i].close.money().amount();
        out.push(c);
        proof {
            assert(c@ == closes_of(candles@)[i as int]);
            assert(values_view(out@) =~= values_view(before).push(c@));
            assert(closes_of(candles@).take(i + 1) =~= closes_of(candles@).take(i as int).push(
                c@,
            ));
        }
        i = i + 1;
    }
    proof {
        assert(closes_of(candles@).take(i as int) =~= closes_of(candles@));
    }
    out
}

/// The last entry of `v`, `None` for an empty series.
fn last_value(v: &Vec<Option<Decimal>>) -> (r: Option<Decimal>)
    ensures
        opt_view(r) == last_of(series_view(v@)),
{
    if v.len() == 0 {
        None
    } else {
        proof {
            assert(series_view(v@).last() == opt_view(v@.last()));
        }
        v[v.len() - 1]
    }
}

/// The nine series, or `None` where an indicator overflows.
pub fn try_compute_series(candles: &[Candle]) -> (r: Option<IndicatorSeries>)
    ensures
        match r {
            None => series_spec(closes_of(candles@)) is None,
            Some(s) => series_spec(closes_of(candles@)) == Some(s@),
        },
{
    let cs = closes(candles);
    let m = try_macd(cs.as_slice(), 12, 26, 9)?;
    let b = try_bollinger(cs.as_slice(), 20, Decimal::from_int(2))?;
    let sma_20 = try_sma(cs.as_slice(), 20)?;
    let sma_50 = try_sma(cs.as_slice(), 50)?;
    let ema_20 = try_ema(cs.as_slice(), 20)?;
    let rsi_14 = try_rsi(cs.as_slice(), 14)?;
    Some(
        IndicatorSeries {
            sma_20,
            sma_50,
            ema_20,
            rsi_14,
            macd: m.macd,
            macd_signal: m.signal,
            macd_histogram: m.histogram,
            bollinger_upper: b.upper,
            bollinger_lower: b.lower,
        },
    )
}

/// Every indicator as a series aligned with `candles`.
pub fn compute_series(candles: &[Candle]) -> (r: IndicatorSeries)
    requires
        series_spec(closes_of(candles@)) is Some,
    ensures
        series_spec(closes_of(candles@)) == Some(r@),
        r.sma_20@.len() == candles@.len(),
        r.sma_50@.len() == candles@.len(),
        r.ema_20@.len() == candles@.len(),
        r.rsi_14@.len() == candles@.len(),
        r.macd@.len() == candles@.len(),
        r.macd_signal@.len() == candles@.len(),
        r.macd_histogram@.len() == candles@.len(),
        r.bollinger_upper@.len() == candles@.len(),
        r.bollinger_lower@.len() == candles@.len(),
{
    let r = try_compute_series(candles).unwrap();
    proof {
        lemma_series_shape(closes_of(candles@));
        assert(series_view(r.sma_20@).len() == r.sma_20@.len());
        assert(series_view(r.sma_50@).len() == r.sma_50@.len());
        assert(series_view(r.ema_20@).len() == r.ema_20@.len());
        assert(series_view(r.rsi_14@).len() == r.rsi_14@.len());
        assert(series_view(r.macd@).len() == r.macd@.len());
        assert(series_view(r.macd_signal@).len() == r.macd_signal@.len());
        assert(series_view(r.macd_histogram@).len() == r.macd_histogram@.len());
        assert(series_view(r.bollinger_upper@).len() == r.bollinger_upper@.len());
        assert(series_view(r.bollinger_lower@).len() == r.bollinger_lower@.len());
    }
    r
}

/// Every series is aligned with the closes: one entry per close.
pub proof fn lemma_series_shape(cs: Seq<(int, nat)>)
    requires
        series_spec(cs) is Some,
    ensures
        ({
            let s = series_spec(cs)->0;
            &&& s.0.len() == cs.len()
            &&& s.1.len() == cs.len()
            &&& s.2.len() == cs.len()
            &&& s.3.len() == cs.len()
            &&& s.4.len() == cs.len()
            &&& s.5.len() == cs.len()
            &&& s.6.len() == cs.len()
            &&& s.7.len() == cs.len()
            &&& s.8.len() == cs.len()
        }),
{
    crate::indicators::sma::lemma_sma_shape(cs, 20, cs.len());
    crate::indicators::sma::lemma_sma_shape(cs, 50, cs.len());
    crate::indicators::ema::lemma_ema_shape(cs, 20);
    crate::indicators::rsi::lemma_rsi_shape(cs, 14);
    crate::indicators::macd::lemma_macd_shape(cs, 12, 26, 9);
    crate::indicators::bollinger::lemma_bollinger_shape(cs, 20, (2int, 0nat));
}

/// The latest values, or `None` where an indicator overflows.
pub fn try_compute_snapshot(candles: &[Candle]) -> (r: Option<IndicatorSnapshot>)
    ensures
        match r {
            None => snapshot_spec(closes_of(candles@)) is None,
            Some(s) => snapshot_spec(closes_of(candles@)) == Some(s@),
        },
{
    let s = try_compute_series(candles)?;
    Some(
        IndicatorSnapshot {
            sma_20: last_value(&s.sma_20),
            sma_50: last_value(&s.sma_50),
            ema_20: last_value(&s.ema_20),
            rsi_14: last_value(&s.rsi_14),
            macd: last_value(&s.macd),
            macd_signal: last_value(&s.macd_signal),
            bollinger_upper: last_value(&s.bollinger_upper),
            bollinger_lower: last_value(&s.bollinger_lower),
        },
    )
}

/// The latest value of every indicator over `candles` (`None` where the series ends in
/// its warm-up window or is empty).
pub fn compute_snapshot(candles: &[Candle]) -> (r: IndicatorSnapshot)
    requires
        snapshot_spec(closes_of(candles@)) is Some,
    ensures
        snapshot_spec(closes_of(candles@)) == Some(r@),
{
    try_compute_snapshot(candles).unwrap()
}

} // verus!
