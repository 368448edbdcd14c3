use chrono::{DateTime, Utc};
use ai_stock::alert::{evaluate, AlertCondition, AlertOutcome, AlertRule};
use ai_stock::asset::AssetKind;
use ai_stock::averaging_down::plan;
use ai_stock::candle::Candle;
use ai_stock::conversation::{Conversation, Role};
use ai_stock::decimal::Decimal;
use ai_stock::holding::Holding;
use ai_stock::money::{Currency, Money, MoneyError};
use ai_stock::percent::Percent;
use ai_stock::portfolio::Portfolio;
use ai_stock::price::Price;
use ai_stock::quantity::{Quantity, QuantityError};
use ai_stock::quote::Quote;
use ai_stock::sanity::is_sane;
use ai_stock::symbol::Symbol;
use ai_stock::time::{TimeRange, Timestamp};
use ai_stock::watchlist::Watchlist;

fn d(s: &str) -> Decimal {
    Decimal::parse(s).unwrap()
}

fn usd(v: &str) -> Money {
    Money::new(d(v), Currency::new("USD").unwrap())
}

fn krw(v: &str) -> Money {
    Money::new(d(v), Currency::new("KRW").unwrap())
}

fn qty(v: &str) -> Quantity {
    Quantity::new(d(v)).unwrap()
}

/// 2026-05-13T10:00:00Z plus `secs`.
fn at(secs: i64) -> Timestamp {
    Timestamp::from_unix(1_778_666_400 + secs, 0)
}

fn rule(condition: AlertCondition, last: Option<Timestamp>) -> AlertRule {
    AlertRule {
        id: 1,
        symbol: Symbol::new(AssetKind::Crypto, "BTC", Some("USD")).unwrap(),
        condition,
        enabled: true,
        cooldown_secs: 60,
        last_fired_at: last,
    }
}

#[test]
fn above_threshold_fires() {
    let r = rule(AlertCondition::Above(usd("70000")), None);
    assert_eq!(evaluate(&r, usd("71000"), at(0)).unwrap(), AlertOutcome::Fire);
}

#[test]
fn below_threshold_fires() {
    let r = rule(AlertCondition::Below(usd("70000")), None);
    assert_eq!(evaluate(&r, usd("69000"), at(0)).unwrap(), AlertOutcome::Fire);
}

#[test]
fn cooldown_suppresses_consecutive_fires() {
    let now = at(30);
    let prev = at(0);
    let r = rule(AlertCondition::Above(usd("70000")), Some(prev));
    assert_eq!(evaluate(&r, usd("71000"), now).unwrap(), AlertOutcome::OnCooldown);
}

#[test]
fn currency_mismatch_errors() {
    let r = rule(AlertCondition::Above(usd("70000")), None);
    let krw_price = krw("100000000");
    assert!(evaluate(&r, krw_price, at(0)).is_err());
}

#[test]
fn disabled_never_fires() {
    let mut r = rule(AlertCondition::Above(usd("70000")), None);
    r.enabled = false;
    assert_eq!(evaluate(&r, usd("71000"), at(0)).unwrap(), AlertOutcome::NotTriggered);
}

#[test]
fn breakeven_gap_when_underwater() {
    let p = plan(krw("100000"), qty("1"), krw("80000"), &[]);
    assert!(p.is_underwater);
    assert_eq!(p.breakeven_gap_pct, Some(d("25")));
    assert_eq!(p.current_return_pct, None);
    assert_eq!(p.max_reduction_pct, d("20"));
    assert!(p.rows.is_empty());
}

#[test]
fn worked_example_n10_feasible() {
    let p = plan(krw("100000"), qty("1"), krw("80000"), &[d("10")]);
    let row = &p.rows[0];
    assert!(row.feasible);
    assert_eq!(row.target_pct, d("10"));
    assert_eq!(row.target_avg, krw("90000"));
    assert_eq!(row.add_quantity, qty("1"));
    assert_eq!(row.add_invest, krw("80000"));
    assert_eq!(row.new_breakeven_gap_pct, d("12.5"));
}

#[test]
fn presets_feasible_until_n_max() {
    let p = plan(
        krw("100000"),
        qty("1"),
        krw("80000"),
        &[d("5"), d("10"), d("15"), d("20"), d("25")],
    );
    assert_eq!(p.rows.len(), 5);
    assert!(p.rows[0].feasible);
    assert!(p.rows[1].feasible);
    assert!(p.rows[2].feasible);
    assert!(!p.rows[3].feasible);
    assert!(!p.rows[4].feasible);
}

#[test]
fn not_underwater_reports_current_return() {
    let p = plan(usd("100"), qty("1"), usd("120"), &[d("5"), d("10")]);
    assert!(!p.is_underwater);
    assert_eq!(p.breakeven_gap_pct, None);
    assert_eq!(p.current_return_pct, Some(d("20")));
    assert!(p.rows.iter().all(|r| !r.feasible));
}

#[test]
fn non_positive_target_is_infeasible_not_panic() {
    let p = plan(krw("100000"), qty("1"), krw("80000"), &[d("0"), d("-10")]);
    assert!(!p.rows[0].feasible);
    assert!(!p.rows[1].feasible);
}

fn bar(open: &str, high: &str, low: &str, close: &str, volume: &str) -> Candle {
    let p = |v: &str| Price::new(usd(v));
    Candle {
        symbol: Symbol::new(AssetKind::UsEquity, "AAPL", None).unwrap(),
        open: p(open),
        high: p(high),
        low: p(low),
        close: p(close),
        volume: d(volume),
        opened_at: at(0),
    }
}

#[test]
fn rejects_high_below_close() {
    let c = bar("100", "101", "99", "102", "0");
    assert!(c.validate().is_err());
}

#[test]
fn accepts_valid_candle() {
    let c = bar("100", "105", "99", "102", "1000");
    assert!(c.validate().is_ok());
}

#[test]
fn push_records_messages_in_order() {
    let mut c = Conversation::new();
    assert!(c.is_empty());
    c.push_user("hello");
    c.push_assistant("hi there");
    assert_eq!(c.messages().len(), 2);
    assert_eq!(c.messages()[0].role, Role::User);
    assert_eq!(c.messages()[0].content, "hello");
    assert_eq!(c.messages()[1].role, Role::Assistant);
    assert_eq!(c.messages()[1].content, "hi there");
    assert!(!c.is_empty());
}

#[test]
fn recent_returns_only_the_last_n_messages() {
    let mut c = Conversation::new();
    for i in 0..10 {
        c.push_user(&format!("m{i}"));
    }
    let tail = c.recent(3);
    assert_eq!(tail.len(), 3);
    assert_eq!(tail[0].content, "m7");
    assert_eq!(tail[2].content, "m9");
}

#[test]
fn recent_caps_at_total_length() {
    let mut c = Conversation::new();
    c.push_user("only");
    assert_eq!(c.recent(50).len(), 1);
}

#[test]
fn recent_zero_returns_empty() {
    let mut c = Conversation::new();
    c.push_user("message");
    assert_eq!(c.recent(0).len(), 0);
}

#[test]
fn recent_on_empty_conversation_returns_empty() {
    let c = Conversation::new();
    assert_eq!(c.recent(10).len(), 0);
}

#[test]
fn computes_cost_basis() {
    let h = Holding::new(
        Symbol::new(AssetKind::UsEquity, "AAPL", None).unwrap(),
        qty("10"),
        usd("150"),
    );
    assert_eq!(h.cost_basis(), usd("1500"));
}

#[test]
fn parses_valid_money() {
    let m = Money::parse("12.50", "USD").unwrap();
    assert_eq!(m.amount(), d("12.50"));
    assert_eq!(m.currency().as_str(), "USD");
}

#[test]
fn rejects_lowercase_currency() {
    assert!(matches!(Money::parse("1", "usd"), Err(MoneyError::InvalidCurrency(_))));
}

#[test]
fn rejects_invalid_amount() {
    assert!(matches!(Money::parse("twelve", "USD"), Err(MoneyError::InvalidAmount(_))));
}

#[test]
fn adds_same_currency() {
    let a = Money::parse("10", "USD").unwrap();
    let b = Money::parse("2.5", "USD").unwrap();
    assert_eq!(a.add(b).unwrap(), Money::parse("12.5", "USD").unwrap());
}

#[test]
fn rejects_cross_currency_addition() {
    let a = Money::parse("10", "USD").unwrap();
    let b = Money::parse("10", "KRW").unwrap();
    assert!(matches!(a.add(b), Err(MoneyError::CurrencyMismatch(_, _))));
}

#[test]
fn multiplies_by_scalar() {
    let a = Money::parse("3", "USD").unwrap();
    assert_eq!(a.mul_scalar(d("2")), Money::parse("6", "USD").unwrap());
}

#[test]
fn accepts_four_char_stablecoin() {
    let m = Money::parse("1", "USDT").unwrap();
    assert_eq!(m.currency().as_str(), "USDT");
}

#[test]
fn rejects_two_char_currency() {
    assert!(matches!(Money::parse("1", "US"), Err(MoneyError::InvalidCurrency(_))));
}

#[test]
fn rejects_six_char_currency() {
    assert!(matches!(Money::parse("1", "USDTKR"), Err(MoneyError::InvalidCurrency(_))));
}

#[test]
fn addition_is_commutative() {
    for (a, b) in [(0i64, 0i64), (1, -1), (-999_999, 999_999), (123_456, 654_321), (-7, -13)] {
        let m1 = Money::new(Decimal::from_int(a), Currency::new("USD").unwrap());
        let m2 = Money::new(Decimal::from_int(b), Currency::new("USD").unwrap());
        assert_eq!(m1.add(m2).unwrap(), m2.add(m1).unwrap());
    }
}

#[test]
fn ratio_to_percent() {
    assert_eq!(Percent::from_ratio(d("0.0124")).value(), d("1.2400"));
}

#[test]
fn upsert_replaces_existing() {
    let mut p = Portfolio::new();
    let s = Symbol::new(AssetKind::UsEquity, "AAPL", None).unwrap();
    let h1 = Holding::new(s.clone(), qty("10"), usd("100"));
    let h2 = Holding::new(s.clone(), qty("20"), usd("110"));
    p.upsert(h1);
    p.upsert(h2);
    assert_eq!(p.holdings().len(), 1);
    assert_eq!(p.holdings()[0].quantity.value(), d("20"));
}

#[test]
fn accepts_positive() {
    assert_eq!(Quantity::new(d("1.5")).unwrap().value(), d("1.5"));
}

#[test]
fn accepts_zero() {
    assert_eq!(Quantity::new(Decimal::zero()).unwrap(), Quantity::zero());
}

#[test]
fn rejects_negative() {
    assert!(matches!(Quantity::new(d("-0.1")), Err(QuantityError::Negative(_))));
}

fn btc_quote(amount: &str) -> Quote {
    Quote::new(
        Symbol::new(AssetKind::Crypto, "BTC", Some("USD")).unwrap(),
        Price::new(usd(amount)),
        at(0),
    )
}

#[test]
fn accepts_first_quote() {
    assert!(is_sane(None, &btc_quote("100"), d("10")));
}

#[test]
fn rejects_10x_jump() {
    let prev = btc_quote("100");
    let new = btc_quote("1100");
    assert!(!is_sane(Some(&prev), &new, d("10")));
}

#[test]
fn accepts_5pct_move() {
    let prev = btc_quote("100");
    let new = btc_quote("105");
    assert!(is_sane(Some(&prev), &new, d("10")));
}

#[test]
fn creates_btc_usd() {
    let s = Symbol::new(AssetKind::Crypto, "BTC", Some("USD")).unwrap();
    assert_eq!(s.ticker(), "BTC");
    assert_eq!(s.quote_currency(), Some("USD"));
    assert_eq!(s.to_canonical_string(), "crypto:BTC:USD");
}

#[test]
fn creates_us_equity_without_quote() {
    let s = Symbol::new(AssetKind::UsEquity, "AAPL", None).unwrap();
    assert_eq!(s.to_canonical_string(), "us:AAPL");
}

#[test]
fn rejects_empty_ticker() {
    assert!(Symbol::new(AssetKind::Crypto, "", Some("USD")).is_err());
}

#[test]
fn rejects_lowercase_quote() {
    assert!(Symbol::new(AssetKind::Crypto, "BTC", Some("usd")).is_err());
}

#[test]
fn allows_dot_in_ticker_for_kr_equity() {
    let s = Symbol::new(AssetKind::KrEquity, "005930.KS", None).unwrap();
    assert_eq!(s.ticker(), "005930.KS");
}

#[test]
fn accepts_four_char_usdt_quote() {
    let s = Symbol::new(AssetKind::Crypto, "BTC", Some("USDT")).unwrap();
    assert_eq!(s.quote_currency(), Some("USDT"));
    assert_eq!(s.to_canonical_string(), "crypto:BTC:USDT");
}

#[test]
fn distinct_symbols_have_distinct_canonical_texts() {
    let all = [
        Symbol::new(AssetKind::Crypto, "BTC", Some("USD")).unwrap(),
        Symbol::new(AssetKind::Crypto, "BTC", Some("USDT")).unwrap(),
        Symbol::new(AssetKind::Crypto, "BTC", None).unwrap(),
        Symbol::new(AssetKind::UsEquity, "BTC", None).unwrap(),
        Symbol::new(AssetKind::Commodity, "BTC", None).unwrap(),
        Symbol::new(AssetKind::Forex, "USDKRW", None).unwrap(),
    ];
    for (i, a) in all.iter().enumerate() {
        for (j, b) in all.iter().enumerate() {
            assert_eq!(i == j, a.to_canonical_string() == b.to_canonical_string());
            assert_eq!(i == j, a == b);
        }
    }
}

#[test]
fn rejects_inverted_range() {
    let a = at(0);
    let b = at(-3600);
    assert!(TimeRange::new(a, b).is_err());
}

#[test]
fn add_is_idempotent() {
    let mut w = Watchlist::new();
    let s = Symbol::new(AssetKind::Crypto, "BTC", Some("USD")).unwrap();
    assert!(w.add(s.clone()));
    assert!(!w.add(s));
    assert_eq!(w.symbols().len(), 1);
}

const DECIMAL_MAX: &str = "79228162514264337593543950335";

#[test]
fn checked_money_arithmetic_reports_overflow() {
    assert!(usd(DECIMAL_MAX).try_add(usd("1")).is_none());
    assert!(usd("-79228162514264337593543950335").try_sub(usd("1")).is_none());
    assert!(usd(DECIMAL_MAX).try_mul_scalar(d("2")).is_none());
    assert_eq!(usd("10").try_add(usd("2.5")).unwrap().unwrap(), usd("12.5"));
    assert!(matches!(
        usd("10").try_add(krw("10")),
        Some(Err(MoneyError::CurrencyMismatch(_, _)))
    ));
    assert_eq!(usd("10").try_sub(usd("2.5")).unwrap().unwrap(), usd("7.5"));
    assert_eq!(usd("2.5").try_mul_scalar(d("4")).unwrap(), usd("10"));
}

#[test]
fn sums_at_the_edge_of_the_range_are_kept() {
    assert_eq!(usd(DECIMAL_MAX).add(usd("0")).unwrap(), usd(DECIMAL_MAX));
    assert_eq!(usd(DECIMAL_MAX).try_add(usd("0.4")).unwrap().unwrap(), usd(DECIMAL_MAX));
}

#[test]
fn checked_cost_basis_and_percent_report_overflow() {
    let btc = Symbol::new(AssetKind::Crypto, "BTC", Some("USD")).unwrap();
    let big = Holding::new(btc.clone(), qty("2"), usd(DECIMAL_MAX));
    assert!(big.try_cost_basis().is_none());
    let small = Holding::new(btc, qty("2"), usd("150"));
    assert_eq!(small.try_cost_basis().unwrap(), usd("300"));
    assert!(Percent::try_from_ratio(d(DECIMAL_MAX)).is_none());
    assert_eq!(Percent::try_from_ratio(d("0.0124")).unwrap().value(), d("1.24"));
}

#[test]
fn instants_at_the_ends_of_the_range_print() {
    assert_eq!(
        Timestamp::from_unix(8_210_266_876_799, 0).to_rfc3339(),
        "+262142-12-31T23:59:59+00:00"
    );
    assert_eq!(
        Timestamp::from_unix(-8_334_601_228_800, 0).to_rfc3339(),
        "-262143-01-01T00:00:00+00:00"
    );
}

#[test]
fn added_quantity_brings_the_average_to_the_target() {
    // 3 units at 100 with the price at 70: a 10% cut needs 3 * 10 / 20 = 1.5 more units;
    // a 20% cut needs 3 * 20 / 10 = 6; a 7% cut needs 3 * 7 / 23, which does not end.
    let p = plan(usd("100"), qty("3"), usd("70"), &[d("10"), d("20"), d("7")]);
    assert_eq!(p.rows[0].add_quantity, qty("1.5"));
    assert_eq!(p.rows[1].add_quantity, qty("6"));
    let q = d("3");
    for row in &p.rows {
        assert!(row.feasible);
        let x = row.add_quantity.value();
        assert!(x.is_positive());
        let t = row.target_avg.amount();
        let cost = q.checked_mul(&d("100")).unwrap().checked_add(&x.checked_mul(&d("70")).unwrap()).unwrap();
        let avg = cost.checked_div(&q.checked_add(&x).unwrap()).unwrap();
        let err = avg.checked_sub(&t).unwrap().abs();
        assert!(err.lt(&d("0.0000000000000000000001")));
    }
}

#[test]
fn instant_range_is_what_chrono_represents() {
    assert!(DateTime::<Utc>::from_timestamp(-8_334_601_228_800, 0).is_some());
    assert!(DateTime::<Utc>::from_timestamp(-8_334_601_228_801, 999_999_999).is_none());
    assert!(DateTime::<Utc>::from_timestamp(-8_334_601_315_200, 0).is_none());
    assert!(DateTime::<Utc>::from_timestamp(8_210_266_876_799, 999_999_999).is_some());
    assert!(DateTime::<Utc>::from_timestamp(8_210_266_876_800, 0).is_none());
}
