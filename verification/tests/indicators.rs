use ai_stock::asset::AssetKind;
use ai_stock::candle::Candle;
use ai_stock::decimal::Decimal;
use ai_stock::indicator_service::{compute_series, compute_snapshot};
use ai_stock::indicators::bollinger::bollinger;
use ai_stock::indicators::ema::ema;
use ai_stock::indicators::macd::macd;
use ai_stock::indicators::rsi::{rsi, try_rsi};
use ai_stock::indicators::sma::sma;
use ai_stock::money::{Currency, Money};
use ai_stock::price::Price;
use ai_stock::symbol::Symbol;
use ai_stock::time::Timestamp;

fn d(s: &str) -> Decimal {
    Decimal::parse(s).unwrap()
}

fn n(v: i64) -> Decimal {
    Decimal::from_int(v)
}

fn ramp(from: i64, to: i64) -> Vec<Decimal> {
    (from..=to).map(n).collect()
}

#[test]
fn constant_series_has_zero_width() {
    let closes = vec![n(50); 25];
    let b = bollinger(&closes, 20, n(2));
    let upper = b.upper.last().unwrap().unwrap();
    let lower = b.lower.last().unwrap().unwrap();
    assert_eq!(upper, n(50));
    assert_eq!(lower, n(50));
}

#[test]
fn bollinger_bands_bracket_a_varying_series() {
    let closes = ramp(1, 25);
    let b = bollinger(&closes, 20, n(2));
    assert!(b.upper[18].is_none());
    let mid = b.middle[24].unwrap();
    let up = b.upper[24].unwrap();
    let lo = b.lower[24].unwrap();
    // the mean of 6..=25 is 15.5; its population standard deviation is about 5.77
    assert_eq!(mid, d("15.5"));
    assert!(d("26.9").lt(&up) && up.lt(&d("27.1")));
    assert!(d("3.9").lt(&lo) && lo.lt(&d("4.1")));
}

#[test]
fn constant_series_is_flat() {
    let closes = vec![n(10); 10];
    let r = ema(&closes, 3);
    assert_eq!(r[2], Some(n(10)));
    assert_eq!(r[9], Some(n(10)));
}

#[test]
fn short_series_returns_none() {
    assert_eq!(ema(&[n(1), n(2)], 5), vec![None, None]);
}

#[test]
fn rising_series_ema_is_below_latest_close() {
    let closes = ramp(1, 10);
    let r = ema(&closes, 3);
    let last = r.last().unwrap().unwrap();
    assert!(last.lt(&n(10)));
    assert!(n(5).lt(&last));
}

#[test]
fn ema_seed_is_the_simple_average() {
    let r = ema(&[n(2), n(4), n(6), n(8)], 3);
    assert_eq!(r[0], None);
    assert_eq!(r[1], None);
    assert_eq!(r[2], Some(n(4)));
    // alpha = 0.5: 0.5 * 8 + 0.5 * 4
    assert_eq!(r[3], Some(n(6)));
}

#[test]
fn constant_series_is_zero() {
    let closes = vec![n(50); 60];
    let m = macd(&closes, 12, 26, 9);
    let last = m.macd.last().unwrap().unwrap();
    let sig = m.signal.last().unwrap().unwrap();
    assert_eq!(last, Decimal::zero());
    assert_eq!(sig, Decimal::zero());
}

#[test]
fn macd_lines_align_with_the_closes() {
    let closes = ramp(1, 40);
    let m = macd(&closes, 3, 5, 2);
    assert_eq!(m.macd.len(), 40);
    assert_eq!(m.signal.len(), 40);
    assert_eq!(m.histogram.len(), 40);
    assert!(m.macd[3].is_none());
    assert!(m.macd[4].is_some());
    assert!(m.signal[4].is_none());
    assert!(m.signal[5].is_some());
    let h = m.histogram[10].unwrap();
    let expected = m.macd[10].unwrap().checked_sub(&m.signal[10].unwrap()).unwrap();
    assert_eq!(h, expected);
}

#[test]
fn monotonic_rising_pegs_at_100() {
    let closes = ramp(1, 20);
    let r = rsi(&closes, 14);
    assert_eq!(r[14], Some(n(100)));
}

#[test]
fn rsi_in_zero_hundred() {
    for seed in [-100i64, -37, 0, 5, 99] {
        for len in [16usize, 23, 49] {
            let closes: Vec<Decimal> = (0..len).map(|i| n(seed + i as i64)).collect();
            let r = rsi(&closes, 14);
            for v in r.into_iter().flatten() {
                assert!(!v.lt(&Decimal::zero()) && !n(100).lt(&v));
            }
        }
    }
}

#[test]
fn rsi_of_a_zigzag_stays_in_range() {
    let closes: Vec<Decimal> = (0..40).map(|i| if i % 3 == 0 { n(10) } else { n(7 + i % 5) }).collect();
    let r = try_rsi(&closes, 5).unwrap();
    assert_eq!(r.len(), 40);
    assert!(r[4].is_none());
    assert!(r[5].is_some());
    for v in r.into_iter().flatten() {
        assert!(!v.lt(&Decimal::zero()) && !n(100).lt(&v));
    }
}

#[test]
fn falling_series_pegs_rsi_at_zero() {
    let closes: Vec<Decimal> = (0..20).map(|i| n(100 - i)).collect();
    let r = rsi(&closes, 14);
    assert_eq!(r[14], Some(n(0)));
}

#[test]
fn period_three_matches_hand_computed() {
    let closes = vec![n(1), n(2), n(3), n(4), n(5)];
    let r = sma(&closes, 3);
    assert_eq!(r, vec![None, None, Some(n(2)), Some(n(3)), Some(n(4))]);
}

#[test]
fn zero_period_returns_all_none() {
    let r = sma(&[n(1), n(2)], 0);
    assert_eq!(r, vec![None, None]);
}

#[test]
fn period_longer_than_data_returns_all_none() {
    let r = sma(&[n(1), n(2)], 5);
    assert_eq!(r, vec![None, None]);
}

fn candles(count: i64) -> Vec<Candle> {
    let s = Symbol::new(AssetKind::UsEquity, "AAPL", None).unwrap();
    let p = |v: i64| Price::new(Money::new(n(v), Currency::new("USD").unwrap()));
    (1..=count)
        .map(|k| Candle {
            symbol: s.clone(),
            open: p(k),
            high: p(k),
            low: p(k),
            close: p(k),
            volume: Decimal::zero(),
            opened_at: Timestamp::from_unix(1_778_666_400 + k * 86_400, 0),
        })
        .collect()
}

#[test]
fn snapshot_on_short_series_has_mostly_none() {
    let snap = compute_snapshot(&candles(5));
    assert_eq!(snap.sma_50, None);
}

#[test]
fn series_lengths_match_candles_input() {
    let series = compute_series(&candles(30));
    assert_eq!(series.sma_20.len(), 30);
    assert_eq!(series.rsi_14.len(), 30);
    assert!(series.sma_50.iter().all(|x| x.is_none()));
    assert!(series.sma_20[19].is_some());
    assert!(series.sma_20[18].is_none());
}

#[test]
fn snapshot_takes_the_latest_values() {
    let cs = candles(30);
    let snap = compute_snapshot(&cs);
    let series = compute_series(&cs);
    assert_eq!(snap.sma_20, *series.sma_20.last().unwrap());
    assert_eq!(snap.rsi_14, Some(n(100)));
    assert_eq!(snap.sma_20, Some(d("20.5")));
}
