use ai_stock::ai_service::{api_key_name, commentary_request, indicator_context, AiServiceError};
use ai_stock::alert::{AlertCondition, AlertError, AlertRule};
use ai_stock::alert_service::{describe_fire, fire_notices, AlertServiceError};
use ai_stock::asset::AssetKind;
use ai_stock::candle::Candle;
use ai_stock::conversation::Role;
use ai_stock::decimal::Decimal;
use ai_stock::indicator_service::IndicatorSnapshot;
use ai_stock::market_service::{
    keep_quotes, no_candle_provider, no_provider_error, CandleAttempt, CandleSearch, MarketError,
    QuoteAttempt, RefreshOutcome, SymbolRefresh,
};
use ai_stock::money::{Currency, Money};
use ai_stock::portfolio_service::PortfolioError;
use ai_stock::ports::{AiError, NewsError, NotifyError, ProviderError, RepoError, SecretError};
use ai_stock::price::Price;
use ai_stock::quote::{Quote, QuoteMap};
use ai_stock::settings_service::{poll_interval_secs, valid_poll_interval};
use ai_stock::symbol::Symbol;
use ai_stock::text::push_u64_text;
use ai_stock::time::Timestamp;

fn d(s: &str) -> Decimal {
    Decimal::parse(s).unwrap()
}

fn usd(v: &str) -> Money {
    Money::new(d(v), Currency::new("USD").unwrap())
}

fn now() -> Timestamp {
    Timestamp::from_unix(1_778_666_400, 0)
}

fn s_btc() -> Symbol {
    Symbol::new(AssetKind::Crypto, "BTC", Some("USD")).unwrap()
}

fn s_aapl() -> Symbol {
    Symbol::new(AssetKind::UsEquity, "AAPL", None).unwrap()
}

fn q(s: &Symbol, amount: &str) -> Quote {
    Quote::new(s.clone(), Price::new(usd(amount)), now())
}

#[test]
fn refresh_routes_each_symbol_to_supporting_provider() {
    let mut outcome = RefreshOutcome::default();
    let mut snapshot = QuoteMap::new();
    for (symbol, price) in [(s_btc(), "67000"), (s_aapl(), "182")] {
        let mut r = SymbolRefresh::start(&symbol);
        let got = r.record("mock", QuoteAttempt::Quotes(vec![q(&symbol, price)])).unwrap();
        keep_quotes(&mut snapshot, &mut outcome, got);
    }
    assert_eq!(outcome.quotes.len(), 2);
    assert!(outcome.errors.is_empty());
    assert!(snapshot.contains_key(&s_btc()));
    assert!(snapshot.contains_key(&s_aapl()));
}

#[test]
fn kept_quotes_replace_older_ones_and_leave_the_rest() {
    let mut snapshot = QuoteMap::new();
    snapshot.insert(s_aapl(), q(&s_aapl(), "180"));
    let mut outcome = RefreshOutcome::default();
    outcome.errors.push(no_provider_error(&s_aapl()));
    keep_quotes(&mut snapshot, &mut outcome, vec![q(&s_btc(), "66000"), q(&s_btc(), "67000")]);
    assert_eq!(snapshot.len(), 2);
    assert_eq!(snapshot.get(&s_btc()).unwrap().price.money().amount(), d("67000"));
    assert_eq!(snapshot.get(&s_aapl()).unwrap().price.money().amount(), d("180"));
    assert_eq!(outcome.quotes.len(), 2);
    assert_eq!(outcome.quotes[0].price.money().amount(), d("66000"));
    assert_eq!(outcome.errors.len(), 1);
}

#[test]
fn refresh_skips_symbol_with_no_supporting_provider() {
    let mut outcome = RefreshOutcome::default();
    let eurusd = Symbol::new(AssetKind::Forex, "EURUSD", None).unwrap();
    outcome.errors.push(no_provider_error(&eurusd));
    assert!(outcome.quotes.is_empty());
    assert_eq!(outcome.errors.len(), 1);
    assert!(outcome.errors[0].provider.is_empty());
    assert_eq!(outcome.errors[0].symbol_canonical, "fx:EURUSD");
    assert_eq!(outcome.errors[0].error, "no provider supports this symbol");
}

#[test]
fn refresh_falls_back_to_next_provider_on_failure() {
    let mut r = SymbolRefresh::start(&s_aapl());
    let first = r.record("failing", QuoteAttempt::Failed(ProviderError::Upstream("blocked".to_string())));
    assert!(first.is_none());
    let second = r.record("ok", QuoteAttempt::Quotes(vec![q(&s_aapl(), "295")])).unwrap();
    assert_eq!(second.len(), 1);
    assert_eq!(second[0].price.money().amount(), d("295"));
}

#[test]
fn exhausted_providers_report_the_last_failure() {
    let mut r = SymbolRefresh::start(&s_aapl());
    assert!(r.record("first", QuoteAttempt::Failed(ProviderError::Network("down".to_string()))).is_none());
    assert!(r.record("second", QuoteAttempt::Quotes(vec![])).is_none());
    let err = r.finish().unwrap();
    assert_eq!(err.symbol_canonical, "us:AAPL");
    assert_eq!(err.provider, "second");
    assert_eq!(err.error, "empty result");
}

#[test]
fn failure_message_names_the_provider_error() {
    let mut r = SymbolRefresh::start(&s_btc());
    assert!(r
        .record("binance", QuoteAttempt::Failed(ProviderError::RateLimited { retry_after_secs: 30 }))
        .is_none());
    let err = r.finish().unwrap();
    assert_eq!(err.provider, "binance");
    assert_eq!(err.error, "rate limited; retry after 30 seconds");
}

#[test]
fn candle_search_keeps_last_failure_through_empty_answers() {
    let mut c = CandleSearch::new();
    assert!(c.record(CandleAttempt::Failed(ProviderError::Parse("bad json".to_string()))).is_none());
    assert!(c.record(CandleAttempt::Candles(Vec::new())).is_none());
    let e = c.finish();
    assert_eq!(e.message(), "provider: parse error: bad json");
}

#[test]
fn candle_search_without_failures_reports_no_candles() {
    let mut c = CandleSearch::new();
    assert!(c.record(CandleAttempt::Candles(Vec::<Candle>::new())).is_none());
    assert_eq!(c.finish().message(), "provider: upstream error: no provider returned candles");
    assert_eq!(no_candle_provider(&s_btc()).message(), "no provider supports symbol: crypto:BTC:USD");
}

fn above_rule(id: i64, symbol: Symbol, amount: &str, enabled: bool) -> AlertRule {
    AlertRule {
        id,
        symbol,
        condition: AlertCondition::Above(usd(amount)),
        enabled,
        cooldown_secs: 0,
        last_fired_at: None,
    }
}

#[test]
fn fires_when_above_threshold_and_records() {
    let rules = vec![above_rule(1, s_btc(), "70000", true)];
    let notices = fire_notices(&rules, &q(&s_btc(), "71000"), now());
    assert_eq!(notices.len(), 1);
    assert_eq!(notices[0].rule_id, 1);
    assert_eq!(notices[0].title, "Alert \u{b7} BTC");
    assert_eq!(notices[0].body, "BTC is at or above 70000 USD");
}

#[test]
fn only_firing_rules_give_notices() {
    let krw_rule = AlertRule {
        id: 4,
        symbol: s_btc(),
        condition: AlertCondition::Below(Money::new(d("1"), Currency::new("KRW").unwrap())),
        enabled: true,
        cooldown_secs: 0,
        last_fired_at: None,
    };
    let rules = vec![
        above_rule(1, s_btc(), "80000", true),
        above_rule(2, s_btc(), "60000", false),
        above_rule(3, s_btc(), "60000", true),
        krw_rule,
    ];
    let notices = fire_notices(&rules, &q(&s_btc(), "71000"), now());
    assert_eq!(notices.len(), 1);
    assert_eq!(notices[0].rule_id, 3);
}

#[test]
fn describes_below_rule() {
    let r = AlertRule {
        id: 9,
        symbol: s_aapl(),
        condition: AlertCondition::Below(usd("150.5")),
        enabled: true,
        cooldown_secs: 60,
        last_fired_at: None,
    };
    assert_eq!(describe_fire(&r), "AAPL is at or below 150.5 USD");
}

#[test]
fn rejects_too_small_poll_interval() {
    assert!(!valid_poll_interval(0));
    assert!(valid_poll_interval(1));
    assert!(valid_poll_interval(300));
    assert!(!valid_poll_interval(301));
}

#[test]
fn poll_interval_is_clamped_with_a_default() {
    assert_eq!(poll_interval_secs(None), 5);
    assert_eq!(poll_interval_secs(Some(0)), 1);
    assert_eq!(poll_interval_secs(Some(42)), 42);
    assert_eq!(poll_interval_secs(Some(1000)), 300);
}

#[test]
fn api_key_is_stored_per_provider() {
    assert_eq!(api_key_name("anthropic"), "anthropic_api_key");
}

#[test]
fn commentary_request_has_one_user_turn() {
    let r = commentary_request("sys".to_string(), "hello");
    assert_eq!(r.system, "sys");
    assert_eq!(r.messages.len(), 1);
    assert_eq!(r.messages[0].role, Role::User);
    assert_eq!(r.messages[0].content, "hello");
    assert_eq!(r.max_output_tokens, 600);
}

#[test]
fn indicator_context_takes_the_snapshot_values() {
    let snap = IndicatorSnapshot {
        sma_20: Some(d("1")),
        sma_50: Some(d("2")),
        ema_20: Some(d("3")),
        rsi_14: Some(d("4")),
        macd: Some(d("5")),
        macd_signal: None,
        bollinger_upper: Some(d("7")),
        bollinger_lower: Some(d("8")),
    };
    let c = indicator_context(&snap);
    assert_eq!(c.rsi_14, Some(d("4")));
    assert_eq!(c.macd, Some(d("5")));
    assert_eq!(c.macd_signal, None);
    assert_eq!(c.sma_20, Some(d("1")));
    assert_eq!(c.sma_50, Some(d("2")));
}

#[test]
fn error_messages_match_their_display_text() {
    assert_eq!(RepoError::NotFound.message(), "not found");
    assert_eq!(RepoError::Storage("disk".to_string()).message(), "storage error: disk");
    assert_eq!(
        ProviderError::UnsupportedSymbol("x".to_string()).message(),
        "symbol not supported by this provider: x"
    );
    assert_eq!(AiError::NotConfigured.message(), "not configured (no api key)");
    assert_eq!(AiError::Unauthorized.message(), "unauthorized \u{2014} invalid api key");
    assert_eq!(AiError::RateLimited { retry_after_secs: 0 }.message(), "rate limited; retry after 0 seconds");
    assert_eq!(NewsError::Parse("p".to_string()).message(), "parse error: p");
    assert_eq!(NotifyError::PermissionDenied.message(), "permission denied");
    assert_eq!(SecretError::NotFound("k".to_string()).message(), "not found: k");
    assert_eq!(MarketError::Repo(RepoError::NotFound).message(), "repo: not found");
    assert_eq!(PortfolioError::Repo(RepoError::NotFound).message(), "repo: not found");
    assert_eq!(
        AlertServiceError::Alert(AlertError::CurrencyMismatch("USD".to_string(), "KRW".to_string()))
            .message(),
        "alert eval: currency mismatch: rule USD vs price KRW"
    );
    assert_eq!(
        AiServiceError::NotConfigured("openai".to_string()).message(),
        "provider not configured: openai"
    );
    assert_eq!(
        AiServiceError::Ai(AiError::Network("reset".to_string())).message(),
        "ai: network error: reset"
    );
}

#[test]
fn numbers_print_in_decimal() {
    for (n, text) in [(0u64, "0"), (7, "7"), (10, "10"), (1234567890, "1234567890"), (u64::MAX, "18446744073709551615")] {
        let mut s = String::new();
        push_u64_text(&mut s, n);
        assert_eq!(s, text);
    }
}
