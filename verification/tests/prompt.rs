use ai_stock::asset::AssetKind;
use ai_stock::decimal::Decimal;
use ai_stock::money::{Currency, Money};
use ai_stock::price::Price;
use ai_stock::prompt::{
    build_chart_analysis_prompt, build_commentary_prompt, build_news_summary_prompt,
    build_prompt, system_prompt, try_build_prompt, HeadlineRef, IndicatorContext, PromptContext,
    PromptKind,
};
use ai_stock::quote::Quote;
use ai_stock::symbol::Symbol;
use ai_stock::time::Timestamp;

fn d(s: &str) -> Decimal {
    Decimal::parse(s).unwrap()
}

fn now() -> Timestamp {
    Timestamp::from_unix(1_778_666_400, 0)
}

#[test]
fn includes_symbol_and_price_when_quote_provided() {
    let s = Symbol::new(AssetKind::Crypto, "BTC", Some("USD")).unwrap();
    let q = Quote::new(
        s.clone(),
        Price::new(Money::new(d("67000"), Currency::new("USD").unwrap())),
        now(),
    );
    let ctx = PromptContext { symbol: &s, quote: Some(&q), indicators: None, headlines: &[] };
    let (sys, user) = build_commentary_prompt(&ctx);
    assert!(sys.contains("financial-data assistant"));
    assert!(user.contains("BTC"));
    assert!(user.contains("67000"));
}

#[test]
fn handles_missing_data_gracefully() {
    let s = Symbol::new(AssetKind::UsEquity, "AAPL", None).unwrap();
    let ctx = PromptContext { symbol: &s, quote: None, indicators: None, headlines: &[] };
    let (_sys, user) = build_commentary_prompt(&ctx);
    assert!(user.contains("AAPL"));
}

#[test]
fn prompt_kind_parses_known_strings() {
    assert_eq!(PromptKind::parse("commentary"), Some(PromptKind::Commentary));
    assert_eq!(PromptKind::parse("chart_analysis"), Some(PromptKind::ChartAnalysis));
    assert_eq!(PromptKind::parse("news_summary"), Some(PromptKind::NewsSummary));
    assert_eq!(PromptKind::parse("bogus"), None);
}

#[test]
fn chart_analysis_prompt_emphasizes_indicators() {
    let s = Symbol::new(AssetKind::UsEquity, "AAPL", None).unwrap();
    let ind = IndicatorContext {
        rsi_14: Some(d("71")),
        macd: Some(d("1.2")),
        macd_signal: Some(d("0.9")),
        sma_20: Some(d("180")),
        sma_50: Some(d("175")),
    };
    let ctx = PromptContext { symbol: &s, quote: None, indicators: Some(ind), headlines: &[] };
    let (sys, user) = build_prompt(PromptKind::ChartAnalysis, &ctx);
    assert!(sys.contains("technical-analysis"));
    assert!(user.contains("RSI(14): 71"));
    assert!(user.contains("interpret the RSI"));
}

#[test]
fn news_summary_prompt_emphasizes_headlines() {
    let s = Symbol::new(AssetKind::Crypto, "BTC", Some("USD")).unwrap();
    let heads = [HeadlineRef { title: "ETF inflows surge", source: "Reuters" }];
    let ctx = PromptContext { symbol: &s, quote: None, indicators: None, headlines: &heads };
    let (sys, user) = build_prompt(PromptKind::NewsSummary, &ctx);
    assert!(sys.contains("news"));
    assert!(user.contains("ETF inflows surge"));
    assert!(user.contains("Summarize"));
}

#[test]
fn build_prompt_commentary_matches_commentary_builder() {
    let s = Symbol::new(AssetKind::UsEquity, "AAPL", None).unwrap();
    let ctx = PromptContext { symbol: &s, quote: None, indicators: None, headlines: &[] };
    let via_dispatch = build_prompt(PromptKind::Commentary, &ctx);
    let direct = build_commentary_prompt(&ctx);
    assert_eq!(via_dispatch, direct);
}

#[test]
fn default_kind_is_commentary() {
    assert_eq!(PromptKind::default(), PromptKind::Commentary);
}

#[test]
fn data_block_lists_every_section_in_order() {
    let s = Symbol::new(AssetKind::Crypto, "BTC", Some("USD")).unwrap();
    let mut q = Quote::new(
        s.clone(),
        Price::new(Money::new(d("67000"), Currency::new("USD").unwrap())),
        now(),
    );
    q.change_24h = Some(d("0.0124"));
    let ind = IndicatorContext {
        rsi_14: Some(d("71")),
        macd: Some(d("1.2")),
        macd_signal: None,
        sma_20: None,
        sma_50: Some(d("175")),
    };
    let heads = [
        HeadlineRef { title: "A", source: "X" },
        HeadlineRef { title: "B", source: "Y" },
    ];
    let ctx = PromptContext { symbol: &s, quote: Some(&q), indicators: Some(ind), headlines: &heads };
    let (_sys, user) = build_news_summary_prompt(&ctx);
    let expected = "Asset: BTC (Crypto)\nCurrent price: 67000 USD\n24h change: 1.2400%\nRSI(14): 71\nSMA(50): 175\nRecent headlines:\n- A (X)\n- B (Y)\n\nSummarize the key themes across the recent headlines above. If no headlines are present, say that no recent news was found.";
    assert_eq!(user, expected);
}

#[test]
fn system_prompts_differ_per_kind() {
    assert!(system_prompt(PromptKind::Commentary).starts_with("You are a concise"));
    assert!(system_prompt(PromptKind::ChartAnalysis).starts_with("You are a technical-analysis"));
    assert!(system_prompt(PromptKind::NewsSummary).starts_with("You are a financial-news"));
    let s = Symbol::new(AssetKind::UsEquity, "AAPL", None).unwrap();
    let ctx = PromptContext { symbol: &s, quote: None, indicators: None, headlines: &[] };
    let (sys, user) = build_chart_analysis_prompt(&ctx);
    assert_eq!(sys, system_prompt(PromptKind::ChartAnalysis));
    assert_eq!(user, "Asset: AAPL (UsEquity)\n\nAnalyze the technical indicators above: interpret the RSI level, the MACD versus its signal line, and the SMA(20) versus SMA(50) relationship. Say what they jointly suggest about momentum and trend.");
}

#[test]
fn overflowing_change_gives_no_prompt() {
    let s = Symbol::new(AssetKind::Crypto, "BTC", Some("USD")).unwrap();
    let mut q = Quote::new(
        s.clone(),
        Price::new(Money::new(d("1"), Currency::new("USD").unwrap())),
        now(),
    );
    q.change_24h = Some(d("79228162514264337593543950335"));
    let ctx = PromptContext { symbol: &s, quote: Some(&q), indicators: None, headlines: &[] };
    assert!(try_build_prompt(PromptKind::Commentary, &ctx).is_none());
}
