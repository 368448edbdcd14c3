use ai_stock::alert::{AlertCondition, AlertRule};
use ai_stock::asset::AssetKind;
use ai_stock::candle::Candle;
use ai_stock::decimal::Decimal;
use ai_stock::fx::FxRates;
use ai_stock::holding::Holding;
use ai_stock::indicator_service::{compute_series, compute_snapshot};
use ai_stock::ipc::{
    chart_data_dto, dto_to_holding, dto_to_rule, dto_to_symbol, kind_to_str, quote_to_dto,
    rule_to_dto, snapshot_to_dto, str_to_kind, symbol_to_dto, valuation_to_dto, AlertRuleDto,
    HoldingDto, SymbolDto,
};
use ai_stock::money::{Currency, Money};
use ai_stock::portfolio::Portfolio;
use ai_stock::portfolio_calc::evaluate;
use ai_stock::price::Price;
use ai_stock::quantity::Quantity;
use ai_stock::quote::{Quote, QuoteMap};
use ai_stock::symbol::Symbol;
use ai_stock::time::Timestamp;

fn d(s: &str) -> Decimal {
    Decimal::parse(s).unwrap()
}

fn usd(v: &str) -> Money {
    Money::new(d(v), Currency::new("USD").unwrap())
}

fn sym_dto(kind: &str, ticker: &str, quote: Option<&str>) -> SymbolDto {
    SymbolDto {
        kind: kind.to_string(),
        ticker: ticker.to_string(),
        quote_currency: quote.map(|q| q.to_string()),
    }
}

#[test]
fn kind_names_round_trip() {
    for k in [AssetKind::Crypto, AssetKind::UsEquity, AssetKind::KrEquity, AssetKind::Forex, AssetKind::Commodity] {
        assert_eq!(str_to_kind(kind_to_str(k)), Some(k));
    }
    assert_eq!(kind_to_str(AssetKind::UsEquity), "us");
    assert_eq!(str_to_kind("stock"), None);
}

#[test]
fn symbol_records_round_trip() {
    let s = Symbol::new(AssetKind::Crypto, "BTC", Some("USDT")).unwrap();
    let dto = symbol_to_dto(&s);
    assert_eq!(dto.kind, "crypto");
    assert_eq!(dto.ticker, "BTC");
    assert_eq!(dto.quote_currency.as_deref(), Some("USDT"));
    assert!(dto_to_symbol(&dto).unwrap() == s);
}

#[test]
fn bad_symbol_records_are_explained() {
    assert_eq!(dto_to_symbol(&sym_dto("stock", "AAPL", None)).err().unwrap(), "bad kind: stock");
    assert_eq!(
        dto_to_symbol(&sym_dto("fx", "USDKRW=X", None)).err().unwrap(),
        "InvalidTicker(\"USDKRW=X\")"
    );
    assert_eq!(
        dto_to_symbol(&sym_dto("crypto", "BTC", Some("usd"))).err().unwrap(),
        "InvalidQuoteCurrency(\"usd\")"
    );
}

#[test]
fn quote_records_carry_text() {
    let s = Symbol::new(AssetKind::Crypto, "BTC", Some("USD")).unwrap();
    let mut q = Quote::new(s, Price::new(usd("67000.5")), Timestamp::from_unix(1_778_666_400, 0));
    q.change_24h = Some(d("0.0124"));
    let dto = quote_to_dto(&q);
    assert_eq!(dto.symbol.kind, "crypto");
    assert_eq!(dto.price, "67000.5");
    assert_eq!(dto.currency, "USD");
    assert_eq!(dto.change_24h.as_deref(), Some("0.0124"));
    assert_eq!(dto.observed_at, "2026-05-13T10:00:00+00:00");
}

fn holding_dto(q: &str, amt: &str, ccy: &str) -> HoldingDto {
    HoldingDto {
        symbol: sym_dto("us", "AAPL", None),
        quantity: q.to_string(),
        avg_cost_amount: amt.to_string(),
        avg_cost_currency: ccy.to_string(),
    }
}

#[test]
fn holding_records_are_read_in_order() {
    let h = dto_to_holding(&holding_dto("10", "150.25", "USD")).unwrap();
    assert_eq!(h.quantity.value(), d("10"));
    assert_eq!(h.avg_cost, usd("150.25"));
    assert_eq!(dto_to_holding(&holding_dto("-1", "1", "usd")).err().unwrap(), "Negative(-1)");
    assert_eq!(
        dto_to_holding(&holding_dto("1", "1", "usd")).err().unwrap(),
        "InvalidCurrency(\"usd\")"
    );
    assert!(dto_to_holding(&holding_dto("ten", "1", "USD")).is_err());
    assert!(dto_to_holding(&holding_dto("1", "x", "USD")).is_err());
}

fn rule_dto(condition: &str, amount: Option<&str>, ccy: Option<&str>) -> AlertRuleDto {
    AlertRuleDto {
        id: 7,
        symbol: sym_dto("crypto", "BTC", Some("USD")),
        condition: condition.to_string(),
        threshold_amount: amount.map(|a| a.to_string()),
        threshold_currency: ccy.map(|c| c.to_string()),
        enabled: true,
        cooldown_secs: 60,
    }
}

#[test]
fn alert_rule_records_round_trip() {
    let r = dto_to_rule(&rule_dto("below", Some("65000"), Some("USD"))).unwrap();
    assert_eq!(r.id, 7);
    assert!(matches!(r.condition, AlertCondition::Below(m) if m == usd("65000")));
    assert!(r.last_fired_at.is_none());
    let back = rule_to_dto(&r);
    assert_eq!(back.condition, "below");
    assert_eq!(back.threshold_amount.as_deref(), Some("65000"));
    assert_eq!(back.threshold_currency.as_deref(), Some("USD"));
    assert_eq!(back.cooldown_secs, 60);
}

#[test]
fn bad_alert_rule_records_are_explained() {
    assert_eq!(dto_to_rule(&rule_dto("above", None, Some("USD"))).err().unwrap(), "missing threshold_amount");
    assert_eq!(dto_to_rule(&rule_dto("above", Some("1"), None)).err().unwrap(), "missing threshold_currency");
    assert_eq!(dto_to_rule(&rule_dto("sideways", None, None)).err().unwrap(), "unknown condition: sideways");
    assert_eq!(
        dto_to_rule(&rule_dto("above", Some("1"), Some("Usd"))).err().unwrap(),
        "InvalidCurrency(\"Usd\")"
    );
}

#[test]
fn rule_records_name_the_condition() {
    let r = AlertRule {
        id: 1,
        symbol: Symbol::new(AssetKind::Crypto, "BTC", Some("USD")).unwrap(),
        condition: AlertCondition::Above(usd("70000")),
        enabled: false,
        cooldown_secs: 5,
        last_fired_at: None,
    };
    let dto = rule_to_dto(&r);
    assert_eq!(dto.condition, "above");
    assert_eq!(dto.threshold_amount.as_deref(), Some("70000"));
    assert!(!dto.enabled);
}

#[test]
fn valuation_records_carry_totals() {
    let aapl = Symbol::new(AssetKind::UsEquity, "AAPL", None).unwrap();
    let mut p = Portfolio::new();
    p.upsert(Holding::new(aapl.clone(), Quantity::new(d("10")).unwrap(), usd("150")));
    let mut quotes = QuoteMap::new();
    quotes.insert(aapl.clone(), Quote::new(aapl, Price::new(usd("180")), Timestamp::from_unix(0, 0)));
    let v = evaluate(&p, &quotes, &FxRates::new(), Currency::new("USD").unwrap());
    let dto = valuation_to_dto(&v);
    assert_eq!(dto.total_value.as_deref(), Some("1800"));
    assert_eq!(dto.total_value_currency.as_deref(), Some("USD"));
    assert_eq!(dto.total_pnl.as_deref(), Some("300"));
    assert_eq!(dto.holdings.len(), 1);
    assert_eq!(dto.holdings[0].cost_basis, "1500");
    assert_eq!(dto.holdings[0].market_value.as_deref(), Some("1800"));
    assert_eq!(dto.holdings[0].symbol.ticker, "AAPL");
}

fn candles(count: i64) -> Vec<Candle> {
    let s = Symbol::new(AssetKind::UsEquity, "AAPL", None).unwrap();
    (1..=count)
        .map(|k| Candle {
            symbol: s.clone(),
            open: Price::new(usd(&k.to_string())),
            high: Price::new(usd(&(k + 1).to_string())),
            low: Price::new(usd(&k.to_string())),
            close: Price::new(usd(&k.to_string())),
            volume: Decimal::from_int(k * 10),
            opened_at: Timestamp::from_unix(1_778_666_400 + k * 86_400, 500_000_000),
        })
        .collect()
}

#[test]
fn chart_records_align_with_candles() {
    let cs = candles(30);
    let series = compute_series(&cs);
    let chart = chart_data_dto(&cs, &series);
    assert_eq!(chart.candles.len(), 30);
    assert_eq!(chart.candles[0].close, "1");
    assert_eq!(chart.candles[0].high, "2");
    assert_eq!(chart.candles[0].volume, "10");
    assert_eq!(chart.candles[0].opened_at, "2026-05-14T10:00:00.500+00:00");
    assert_eq!(chart.sma_20.len(), 30);
    assert_eq!(chart.sma_20[18], None);
    assert_eq!(chart.sma_20[19].as_deref(), Some("10.50"));
    assert_eq!(chart.macd_histogram.len(), 30);
}

#[test]
fn snapshot_records_carry_text() {
    let snap = compute_snapshot(&candles(30));
    let dto = snapshot_to_dto(&snap);
    assert_eq!(dto.sma_20.as_deref(), Some("20.50"));
    assert_eq!(dto.sma_50, None);
    assert_eq!(dto.rsi_14.as_deref(), Some("100"));
}
