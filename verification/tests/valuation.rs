use ai_stock::asset::AssetKind;
use ai_stock::breakeven::{plan as plan_in_base, BreakevenError};
use ai_stock::decimal::Decimal;
use ai_stock::fx::{canonicalize, FxRates};
use ai_stock::fx_refresh::{apply_fx_close, fx_refresh_targets};
use ai_stock::holding::Holding;
use ai_stock::money::{Currency, Money};
use ai_stock::portfolio::Portfolio;
use ai_stock::portfolio_calc::evaluate;
use ai_stock::portfolio_service::valuation;
use ai_stock::price::Price;
use ai_stock::quantity::Quantity;
use ai_stock::quote::{Quote, QuoteMap};
use ai_stock::symbol::Symbol;
use ai_stock::time::Timestamp;

fn d(s: &str) -> Decimal {
    Decimal::parse(s).unwrap()
}

fn ccy(s: &str) -> Currency {
    Currency::new(s).unwrap()
}

fn usd(v: &str) -> Money {
    Money::new(d(v), ccy("USD"))
}

fn krw(v: &str) -> Money {
    Money::new(d(v), ccy("KRW"))
}

fn qty(v: &str) -> Quantity {
    Quantity::new(d(v)).unwrap()
}

fn now() -> Timestamp {
    Timestamp::from_unix(1_778_666_400, 0)
}

fn s_aapl() -> Symbol {
    Symbol::new(AssetKind::UsEquity, "AAPL", None).unwrap()
}

fn quote(s: &Symbol, m: Money) -> Quote {
    Quote::new(s.clone(), Price::new(m), now())
}

#[test]
fn same_currency_passes_through() {
    let fx = FxRates::new();
    let m = usd("100");
    assert_eq!(fx.convert(m, ccy("USD")), Some(usd("100")));
}

#[test]
fn stablecoin_converts_to_usd_at_par() {
    let fx = FxRates::new();
    let m = Money::new(d("67000"), ccy("USDT"));
    assert_eq!(fx.convert(m, ccy("USD")), Some(usd("67000")));
}

#[test]
fn returns_none_when_rate_unknown() {
    let fx = FxRates::new();
    let m = krw("1");
    assert_eq!(fx.convert(m, ccy("USD")), None);
}

#[test]
fn applies_set_rate() {
    let mut fx = FxRates::new();
    fx.set(ccy("USD"), ccy("KRW"), d("1400"));
    let m = usd("10");
    assert_eq!(fx.convert(m, ccy("KRW")), Some(krw("14000")));
}

#[test]
fn stablecoins_are_looked_up_as_dollars() {
    for code in ["USDT", "USDC", "BUSD", "DAI"] {
        assert_eq!(canonicalize(ccy(code)), ccy("USD"));
    }
    assert_eq!(canonicalize(ccy("EUR")), ccy("EUR"));
}

#[test]
fn later_set_replaces_the_rate() {
    let mut fx = FxRates::new();
    fx.set(ccy("USD"), ccy("KRW"), d("1300"));
    fx.set(ccy("USD"), ccy("KRW"), d("1400"));
    assert_eq!(fx.convert(usd("2"), ccy("KRW")), Some(krw("2800")));
}

#[test]
fn computes_pnl_for_single_holding() {
    let mut p = Portfolio::new();
    p.upsert(Holding::new(s_aapl(), qty("10"), usd("150")));
    let mut quotes = QuoteMap::new();
    quotes.insert(s_aapl(), quote(&s_aapl(), usd("180")));
    let fx = FxRates::new();
    let v = evaluate(&p, &quotes, &fx, ccy("USD"));
    assert_eq!(v.total_value, Some(usd("1800")));
    assert_eq!(v.total_cost, Some(usd("1500")));
    assert_eq!(v.total_pnl, Some(usd("300")));
}

#[test]
fn missing_quote_yields_none_market_value() {
    let mut p = Portfolio::new();
    p.upsert(Holding::new(s_aapl(), qty("10"), usd("150")));
    let quotes = QuoteMap::new();
    let fx = FxRates::new();
    let v = evaluate(&p, &quotes, &fx, ccy("USD"));
    assert_eq!(v.per_holding[0].market_value, None);
    assert_eq!(v.total_value, None);
}

fn two_currency_portfolio() -> (Portfolio, QuoteMap) {
    let s_005930 = Symbol::new(AssetKind::KrEquity, "005930", None).unwrap();
    let mut p = Portfolio::new();
    p.upsert(Holding::new(s_aapl(), qty("10"), usd("150")));
    p.upsert(Holding::new(s_005930.clone(), qty("100"), krw("70000")));
    let mut quotes = QuoteMap::new();
    quotes.insert(s_aapl(), quote(&s_aapl(), usd("180")));
    quotes.insert(s_005930.clone(), quote(&s_005930, krw("75000")));
    (p, quotes)
}

#[test]
fn aggregates_across_currencies_via_fx() {
    let (p, quotes) = two_currency_portfolio();
    let mut fx = FxRates::new();
    fx.set(ccy("KRW"), ccy("USD"), d("0.000714286"));
    let v = evaluate(&p, &quotes, &fx, ccy("USD"));
    let total = v.total_value.unwrap();
    assert_eq!(total.currency().as_str(), "USD");
    assert!(d("7000").lt(&total.amount()));
    assert!(total.amount().lt(&d("7300")));
}

#[test]
fn aggregation_returns_none_when_fx_missing() {
    let (p, quotes) = two_currency_portfolio();
    let fx = FxRates::new();
    let v = evaluate(&p, &quotes, &fx, ccy("USD"));
    assert_eq!(v.total_value, None);
}

#[test]
fn valuation_uses_market_snapshot() {
    let mut p = Portfolio::new();
    p.upsert(Holding::new(s_aapl(), qty("10"), usd("150")));
    let mut quotes = QuoteMap::new();
    quotes.insert(s_aapl(), quote(&s_aapl(), usd("180")));
    let v = valuation(&p, &quotes, &FxRates::new());
    assert_eq!(v.total_value, Some(usd("1800")));
    assert_eq!(v.total_pnl, Some(usd("300")));
}

#[test]
fn valuation_converts_with_the_live_rates() {
    let (p, quotes) = two_currency_portfolio();
    assert_eq!(valuation(&p, &quotes, &FxRates::new()).total_value, None);
    let mut fx = FxRates::new();
    fx.set(ccy("KRW"), ccy("USD"), d("0.001"));
    let v = valuation(&p, &quotes, &fx);
    // 10 x 180 USD + 100 x 75000 KRW at 0.001
    assert_eq!(v.total_value, Some(usd("9300")));
    // 10 x 150 USD + 100 x 70000 KRW at 0.001
    assert_eq!(v.total_cost, Some(usd("8500")));
    assert_eq!(v.total_pnl, Some(usd("800")));
}

#[test]
fn converts_native_price_to_base_and_runs_in_base() {
    let mut fx = FxRates::new();
    fx.set(ccy("USD"), ccy("KRW"), d("1400"));
    let outcome = plan_in_base(&fx, krw("280000"), qty("10"), usd("160"), ccy("KRW"), &[d("10")])
        .unwrap();
    assert_eq!(outcome.current_price_base, krw("224000"));
    assert_eq!(outcome.fx_rate_used, Some(d("1400")));
    assert!(outcome.plan.is_underwater);
    assert_eq!(outcome.plan.breakeven_gap_pct, Some(d("25")));
    let row = &outcome.plan.rows[0];
    assert!(row.feasible);
    assert_eq!(row.target_avg, krw("252000"));
    assert_eq!(row.add_invest, krw("2240000"));
    assert_eq!(row.new_breakeven_gap_pct, d("12.5"));
}

#[test]
fn base_equals_price_currency_skips_conversion() {
    let fx = FxRates::new();
    let outcome = plan_in_base(&fx, usd("100"), qty("1"), usd("80"), ccy("USD"), &[d("10")])
        .unwrap();
    assert_eq!(outcome.fx_rate_used, None);
    assert_eq!(outcome.current_price_base, usd("80"));
    assert!(outcome.plan.rows[0].feasible);
}

#[test]
fn missing_cross_rate_yields_rate_missing() {
    let fx = FxRates::new();
    let err = plan_in_base(&fx, krw("280000"), qty("10"), usd("160"), ccy("KRW"), &[d("10")])
        .err()
        .unwrap();
    assert_eq!(err, BreakevenError::RateMissing);
}

#[test]
fn fx_close_sets_rate_and_inverse() {
    let mut fx = FxRates::new();
    apply_fx_close(&mut fx, ccy("USD"), ccy("KRW"), d("1250"));
    assert_eq!(fx.convert(usd("2"), ccy("KRW")), Some(krw("2500")));
    assert_eq!(fx.convert(krw("1250"), ccy("USD")), Some(usd("1")));
}

#[test]
fn fx_close_of_zero_sets_no_inverse() {
    let mut fx = FxRates::new();
    apply_fx_close(&mut fx, ccy("USD"), ccy("KRW"), d("0"));
    assert_eq!(fx.convert(usd("2"), ccy("KRW")), Some(krw("0")));
    assert_eq!(fx.convert(krw("1"), ccy("USD")), None);
}

#[test]
fn fx_refresh_covers_three_pairs() {
    let t = fx_refresh_targets();
    assert_eq!(t.len(), 3);
    assert_eq!(t[0].symbol.to_canonical_string(), "fx:USDKRW=X");
    assert_eq!(t[0].from.as_str(), "USD");
    assert_eq!(t[0].to.as_str(), "KRW");
    assert_eq!(t[1].symbol.ticker(), "EURUSD=X");
    assert_eq!(t[1].from.as_str(), "EUR");
    assert_eq!(t[1].to.as_str(), "USD");
    assert_eq!(t[2].symbol.ticker(), "JPYUSD=X");
    assert_eq!(t[2].from.as_str(), "JPY");
    assert_eq!(t[2].to.as_str(), "USD");
    assert_eq!(t[2].symbol.kind(), AssetKind::Forex);
}

#[test]
fn refresh_writes_each_close_and_its_inverse() {
    let mut fx = FxRates::new();
    for (t, close) in fx_refresh_targets().into_iter().zip(["1400", "1.25", "0.0064"]) {
        apply_fx_close(&mut fx, t.from, t.to, d(close));
    }
    assert_eq!(fx.convert(usd("1"), ccy("KRW")), Some(krw("1400")));
    assert_eq!(fx.convert(Money::new(d("2"), ccy("EUR")), ccy("USD")), Some(usd("2.5")));
    assert_eq!(fx.convert(usd("1.25"), ccy("EUR")), Some(Money::new(d("1"), ccy("EUR"))));
    assert_eq!(fx.convert(usd("0.0064"), ccy("JPY")), Some(Money::new(d("1"), ccy("JPY"))));
}

#[test]
fn checked_conversion_reports_overflow() {
    let mut fx = FxRates::new();
    fx.set(ccy("USD"), ccy("KRW"), d("1400"));
    assert!(fx.try_convert(usd("79228162514264337593543950335"), ccy("KRW")).is_none());
    assert_eq!(fx.try_convert(usd("10"), ccy("KRW")), Some(Some(krw("14000"))));
    assert_eq!(fx.try_convert(usd("10"), ccy("EUR")), Some(None));
    assert_eq!(fx.try_convert(usd("10"), ccy("USDT")), Some(Some(Money::new(d("10"), ccy("USDT")))));
}
