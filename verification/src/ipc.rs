//! The plain-text records exchanged with the user interface, and the conversions
//! between them and the library's values. Amounts travel as decimal text, instants as
//! RFC 3339 text, asset classes as `crypto`, `us`, `kr`, `fx` or `com`.
use crate::alert::{AlertCondition, AlertRule};
use crate::asset::AssetKind;
use crate::candle::Candle;
use crate::decimal::{decimal_parse, decimal_parse_error, decimal_text, opt_view, Decimal};
use crate::holding::Holding;
use crate::indicator_service::{IndicatorSeries, IndicatorSnapshot};
use crate::indicators::series::series_view;
use crate::money::{Currency, Money, MoneyError};
use crate::portfolio_calc::{HoldingValuation, MoneyView, PortfolioValuation};
use crate::quantity::{Quantity, QuantityError};
use crate::quote::Quote;
use crate::symbol::{is_valid_ticker, kind_prefix, kind_prefix_string, Symbol, SymbolError, SymbolView};
use crate::text::is_currency_code;
use crate::time::{rfc3339_text, Timestamp};
use vstd::prelude::*;
use vstd::string::StringExecFns;

verus! {

/// What the `Debug` formatting of `str` prints for a string: the text in double quotes,
/// with escapes.
pub uninterp spec fn str_debug_text(s: Seq<char>) -> Seq<char>;

/// Calls the `Debug` formatting of `str`; the text is named by `str_debug_text`.
#[verifier::external_body]
fn debug_str(s: &str) -> (r: String)
    ensures
        r@ == str_debug_text(s@),
{
    format!("{:?}", s)
}

/// A symbol as text.
#[derive(Debug, Clone)]
pub struct SymbolDto {
    pub kind: String,
    pub ticker: String,
    pub quote_currency: Option<String>,
}

/// A quote as text.
#[derive(Debug, Clone)]
pub struct QuoteDto {
    pub symbol: SymbolDto,
    pub price: String,
    pub currency: String,
    pub change_24h: Option<String>,
    pub observed_at: String,
}

/// A holding as text.
#[derive(Debug, Clone)]
pub struct HoldingDto {
    pub symbol: SymbolDto,
    pub quantity: String,
    pub avg_cost_amount: String,
    pub avg_cost_currency: String,
}

/// A portfolio valuation as text.
#[derive(Debug, Clone)]
pub struct PortfolioValuationDto {
    pub total_value: Option<String>,
    pub total_value_currency: Option<String>,
    pub total_pnl: Option<String>,
    pub holdings: Vec<HoldingValuationDto>,
}

/// One holding's valuation as text.
#[derive(Debug, Clone)]
pub struct HoldingValuationDto {
    pub symbol: SymbolDto,
    pub market_value: Option<String>,
    pub cost_basis: String,
    pub pnl: Option<String>,
}

/// The latest indicator values as text.
#[derive(Debug, Clone)]
pub struct IndicatorSnapshotDto {
    pub sma_20: Option<String>,
    pub sma_50: Option<String>,
    pub ema_20: Option<String>,
    pub rsi_14: Option<String>,
    pub macd: Option<String>,
    pub macd_signal: Option<String>,
    pub bollinger_upper: Option<String>,
    pub bollinger_lower: Option<String>,
}

/// An alert rule as text: the condition is `above` or `below`, with its amount and
/// currency.
#[derive(Debug, Clone)]
pub struct AlertRuleDto {
    pub id: i64,
    pub symbol: SymbolDto,
    pub condition: String,
    pub threshold_amount: Option<String>,
    pub threshold_currency: Option<String>,
    pub enabled: bool,
    pub cooldown_secs: u32,
}

/// A price bar as text.
#[derive(Debug, Clone)]
pub struct CandleDto {
    pub opened_at: String,
    pub open: String,
    pub high: String,
    pub low: String,
    pub close: String,
    pub volume: String,
}

/// A chart: the bars and the indicator series drawn over them, as text.
#[derive(Debug, Clone)]
pub struct ChartDataDto {
    pub candles: Vec<CandleDto>,
    pub sma_20: Vec<Option<String>>,
    pub sma_50: Vec<Option<String>>,
    pub rsi_14: Vec<Option<String>>,
    pub macd: Vec<Option<String>>,
    pub macd_signal: Vec<Option<String>>,
    pub macd_histogram: Vec<Option<String>>,
}

/// The view of optional text.
pub open spec fn opt_text(o: Option<String>) -> Option<Seq<char>> {
    match o {
        Some(s) => Some(s@),
        None => None,
    }
}

/// The text of an optional decimal.
pub open spec fn opt_dec_text(o: Option<(int, nat)>) -> Option<Seq<char>> {
    match o {
        Some(d) => Some(decimal_text(d)),
        None => None,
    }
}

/// The texts of a series of optional decimals.
pub open spec fn series_text(s: Seq<Option<(int, nat)>>) -> Seq<Option<Seq<char>>> {
    s.map_values(|o: Option<(int, nat)>| opt_dec_text(o))
}

/// The views of a list of optional texts.
pub open spec fn opt_texts(s: Seq<Option<String>>) -> Seq<Option<Seq<char>>> {
    s.map_values(|o: Option<String>| opt_text(o))
}

/// The view of a symbol record: class name, ticker, quote currency.
pub type SymbolDtoView = (Seq<char>, Seq<char>, Option<Seq<char>>);

impl View for SymbolDto {
    type V = SymbolDtoView;

    open spec fn view(&self) -> SymbolDtoView {
        (self.kind@, self.ticker@, opt_text(self.quote_currency))
    }
}

/// The record of a symbol.
pub open spec fn symbol_record(s: SymbolView) -> SymbolDtoView {
    (kind_prefix(s.0), s.1, s.2)
}

/// The class named by `t`, if any.
pub open spec fn kind_named(t: Seq<char>) -> Option<AssetKind> {
    if t == kind_prefix(AssetKind::Crypto) {
        Some(AssetKind::Crypto)
    } else if t == kind_prefix(AssetKind::UsEquity) {
        Some(AssetKind::UsEquity)
    } else if t == kind_prefix(AssetKind::KrEquity) {
        Some(AssetKind::KrEquity)
    } else if t == kind_prefix(AssetKind::Forex) {
        Some(AssetKind::Forex)
    } else if t == kind_prefix(AssetKind::Commodity) {
        Some(AssetKind::Commodity)
    } else {
        None
    }
}

/// `Name("…")`: the debug text of a one-string variant.
pub open spec fn debug_variant_text(name: Seq<char>, field: Seq<char>) -> Seq<char> {
    name + "("@ + str_debug_text(field) + ")"@
}

/// The debug text of a refused symbol: `InvalidTicker("…")` or
/// `InvalidQuoteCurrency("…")`.
pub open spec fn symbol_refusal_text(ticker: Seq<char>, quote: Option<Seq<char>>) -> Seq<char> {
    if !is_valid_ticker(ticker) {
        debug_variant_text("InvalidTicker"@, ticker)
    } else {
        debug_variant_text("InvalidQuoteCurrency"@, quote->0)
    }
}

/// A symbol record read back: the class must be named, and the ticker and quote
/// currency valid.
pub open spec fn symbol_from_record(d: SymbolDtoView) -> Result<SymbolView, Seq<char>> {
    match kind_named(d.0) {
        None => Err("bad kind: "@ + d.0),
        Some(k) => if is_valid_ticker(d.1) && (d.2 matches Some(q) ==> is_currency_code(q)) {
            Ok((k, d.1, d.2))
        } else {
            Err(symbol_refusal_text(d.1, d.2))
        },
    }
}

/// Each asset class is named by its own record name.
proof fn lemma_kind_names_distinct(k: AssetKind)
    ensures
        kind_named(kind_prefix(k)) == Some(k),
{
    let c = kind_prefix(AssetKind::Crypto);
    let u = kind_prefix(AssetKind::UsEquity);
    let r = kind_prefix(AssetKind::KrEquity);
    let f = kind_prefix(AssetKind::Forex);
    let m = kind_prefix(AssetKind::Commodity);
    assert(c.len() == 6 && u.len() == 2 && r.len() == 2 && f.len() == 2 && m.len() == 3);
    assert(u[0] != r[0] && u[0] != f[0] && r[0] != f[0]);
}

/// A valid symbol's record reads back as the same symbol.
pub proof fn lemma_symbol_record_round_trip(s: SymbolView)
    requires
        is_valid_ticker(s.1),
        s.2 matches Some(q) ==> is_currency_code(q),
    ensures
        symbol_from_record(symbol_record(s)) == Ok::<SymbolView, Seq<char>>(s),
{
    lemma_kind_names_distinct(s.0);
}

/// The name of an asset class in records.
pub fn kind_to_str(k: AssetKind) -> (r: &'static str)
    ensures
        r@ == kind_prefix(k),
{
    proof {
        reveal_strlit("crypto");
        reveal_strlit("us");
        reveal_strlit("kr");
        reveal_strlit("fx");
        reveal_strlit("com");
    }
    match k {
        AssetKind::Crypto => "crypto",
        AssetKind::UsEquity => "us",
        AssetKind::KrEquity => "kr",
        AssetKind::Forex => "fx",
        AssetKind::Commodity => "com",
    }
}

/// The asset class a record names, if any.
pub fn str_to_kind(s: &str) -> (r: Option<AssetKind>)
    ensures
        r == kind_named(s@),
{
    let given = String::from_str(s);
    if given.eq(&kind_prefix_string(AssetKind::Crypto)) {
        Some(AssetKind::Crypto)
    } else if given.eq(&kind_prefix_string(AssetKind::UsEquity)) {
        Some(AssetKind::UsEquity)
    } else if given.eq(&kind_prefix_string(AssetKind::KrEquity)) {
        Some(AssetKind::KrEquity)
    } else if given.eq(&kind_prefix_string(AssetKind::Forex)) {
        Some(AssetKind::Forex)
    } else if given.eq(&kind_prefix_string(AssetKind::Commodity)) {
        Some(AssetKind::Commodity)
    } else {
        None
    }
}

/// `Variant("…")` for a one-string refusal.
fn debug_variant(name: &str, field: &str) -> (r: String)
    ensures
        r@ == debug_variant_text(name@, field@),
{
    let mut r = String::from_str(name);
    r.append("(");
    let d = debug_str(field);
    r.append(d.as_str());
    r.append(")");
    r
}

/// The symbol a record describes; a record naming no class gives `bad kind: …`, a
/// refused symbol the debug text of the refusal.
pub fn dto_to_symbol(d: &SymbolDto) -> (r: Result<Symbol, String>)
    ensures
        match r {
            Ok(s) => symbol_from_record(d@) == Ok::<SymbolView, Seq<char>>(s@),
            Err(t) => symbol_from_record(d@) == Err::<SymbolView, Seq<char>>(t@),
        },
{
    let k = match str_to_kind(d.kind.as_str()) {
        Some(k) => k,
        None => {
            let mut t = String::from_str("bad kind: ");
            t.append(d.kind.as_str());
            return Err(t);
        },
    };
    let qc: Option<&str> = match &d.quote_currency {
        Some(q) => Some(q.as_str()),
        None => None,
    };
    proof {
        assert(match qc {
            Some(q) => Some(q@),
            None => None::<Seq<char>>,
        } == opt_text(d.quote_currency));
    }
    match Symbol::new(k, d.ticker.as_str(), qc) {
        Ok(s) => Ok(s),
        Err(SymbolError::InvalidTicker(t)) => Err(debug_variant("InvalidTicker", t.as_str())),
        Err(SymbolError::InvalidQuoteCurrency(t)) => Err(
            debug_variant("InvalidQuoteCurrency", t.as_str()),
        ),
    }
}

/// The record of a symbol.
pub fn symbol_to_dto(s: &Symbol) -> (r: SymbolDto)
    ensures
        r@ == symbol_record(s@),
{
    let quote_currency = match s.quote_currency() {
        Some(q) => Some(String::from_str(q)),
        None => None,
    };
    SymbolDto {
        kind: String::from_str(kind_to_str(s.kind())),
        ticker: String::from_str(s.ticker()),
        quote_currency,
    }
}

/// The text of an optional decimal.
fn dec_text(o: Option<Decimal>) -> (r: Option<String>)
    ensures
        opt_text(r) == opt_dec_text(opt_view(o)),
{
    match o {
        Some(d) => Some(d.to_text()),
        None => None,
    }
}

/// The currency code of money, as text.
fn currency_text(m: &Money) -> (r: String)
    ensures
        r@ == m@.1,
{
    let c = m.currency();
    String::from_str(c.as_str())
}

/// The record of a quote: its symbol, price and currency, 24-hour change and when it
/// was observed.
pub fn quote_to_dto(q: &Quote) -> (r: QuoteDto)
    ensures
        r.symbol@ == symbol_record(q.symbol@),
        r.price@ == decimal_text(q.price@.0),
        r.currency@ == q.price@.1,
        opt_text(r.change_24h) == opt_dec_text(q@.2),
        r.observed_at@ == rfc3339_text(q.observed_at.secs_spec(), q.observed_at.nanos_spec()),
{
    let m = q.price.money();
    QuoteDto {
        symbol: symbol_to_dto(&q.symbol),
        price: m.amount().to_text(),
        currency: currency_text(&m),
        change_24h: dec_text(q.change_24h),
        observed_at: q.observed_at.to_rfc3339(),
    }
}

/// A holding record read back: the symbol, then the quantity (a decimal, not negative),
/// then the currency, then the average cost amount; the first failure is reported.
pub open spec fn holding_from_record(
    symbol: SymbolDtoView,
    quantity: Seq<char>,
    amount: Seq<char>,
    currency: Seq<char>,
) -> Result<(SymbolView, (int, nat), MoneyView), Seq<char>> {
    match symbol_from_record(symbol) {
        Err(e) => Err(e),
        Ok(s) => match decimal_parse(quantity) {
            None => Err(decimal_parse_error(quantity)),
            Some(q) => if q.0 < 0 {
                Err("Negative("@ + decimal_text(q) + ")"@)
            } else if !is_currency_code(currency) {
                Err(debug_variant_text("InvalidCurrency"@, currency))
            } else {
                match decimal_parse(amount) {
                    None => Err(decimal_parse_error(amount)),
                    Some(a) => Ok((s, q, (a, currency))),
                }
            },
        },
    }
}

/// The holding a record describes.
pub fn dto_to_holding(d: &HoldingDto) -> (r: Result<Holding, String>)
    ensures
        match r {
            Ok(h) => holding_from_record(
                d.symbol@,
                d.quantity@,
                d.avg_cost_amount@,
                d.avg_cost_currency@,
            ) == Ok::<(SymbolView, (int, nat), MoneyView), Seq<char>>(h@),
            Err(t) => holding_from_record(
                d.symbol@,
                d.quantity@,
                d.avg_cost_amount@,
                d.avg_cost_currency@,
            ) == Err::<(SymbolView, (int, nat), MoneyView), Seq<char>>(t@),
        },
{
    let symbol = dto_to_symbol(&d.symbol)?;
    let qv = Decimal::parse_with_error(d.quantity.as_str())?;
    let qty = match Quantity::new(qv) {
        Ok(q) => q,
        Err(QuantityError::Negative(v)) => {
            let mut t = String::from_str("Negative(");
            let vt = v.to_text();
            t.append(vt.as_str());
            t.append(")");
            return Err(t);
        },
    };
    let ccy = match Currency::new(d.avg_cost_currency.as_str()) {
        Ok(c) => c,
        Err(_) => {
            return Err(debug_variant("InvalidCurrency", d.avg_cost_currency.as_str()));
        },
    };
    let amt = Decimal::parse_with_error(d.avg_cost_amount.as_str())?;
    Ok(Holding::new(symbol, qty, Money::new(amt, ccy)))
}

/// The amount text of optional money.
fn money_amount_text(o: Option<Money>) -> (r: Option<String>)
    ensures
        opt_text(r) == match o {
            Some(m) => Some(decimal_text(m@.0)),
            None => None::<Seq<char>>,
        },
{
    match o {
        Some(m) => Some(m.amount().to_text()),
        None => None,
    }
}

/// The text of optional money's amount.
pub open spec fn opt_amount_text(o: Option<Money>) -> Option<Seq<char>> {
    match o {
        Some(m) => Some(decimal_text(m@.0)),
        None => None,
    }
}

/// The record of a holding's valuation, by view.
pub open spec fn holding_valuation_record(h: HoldingValuation) -> (
    SymbolDtoView,
    Option<Seq<char>>,
    Seq<char>,
    Option<Seq<char>>,
) {
    (
        symbol_record(h.symbol@),
        opt_amount_text(h.market_value),
        decimal_text(h.cost_basis@.0),
        opt_amount_text(h.pnl_absolute),
    )
}

/// The view of a holding valuation record.
pub open spec fn holding_valuation_dto_view(d: HoldingValuationDto) -> (
    SymbolDtoView,
    Option<Seq<char>>,
    Seq<char>,
    Option<Seq<char>>,
) {
    (d.symbol@, opt_text(d.market_value), d.cost_basis@, opt_text(d.pnl))
}

/// The record of one holding's valuation.
pub fn holding_valuation_to_dto(h: &HoldingValuation) -> (r: HoldingValuationDto)
    ensures
        r.symbol@ == symbol_record(h.symbol@),
        opt_text(r.market_value) == match h.market_value {
            Some(m) => Some(decimal_text(m@.0)),
            None => None::<Seq<char>>,
        },
        r.cost_basis@ == decimal_text(h.cost_basis@.0),
        opt_text(r.pnl) == match h.pnl_absolute {
            Some(m) => Some(decimal_text(m@.0)),
            None => None::<Seq<char>>,
        },
{
    HoldingValuationDto {
        symbol: symbol_to_dto(&h.symbol),
        market_value: money_amount_text(h.market_value),
        cost_basis: h.cost_basis.amount().to_text(),
        pnl: money_amount_text(h.pnl_absolute),
    }
}

/// The record of a portfolio valuation: the totals' amounts, the total value's currency,
/// and one record per holding, in order.
pub fn valuation_to_dto(v: &PortfolioValuation) -> (r: PortfolioValuationDto)
    ensures
        opt_text(r.total_value) == match v.total_value {
            Some(m) => Some(decimal_text(m@.0)),
            None => None::<Seq<char>>,
        },
        opt_text(r.total_value_currency) == match v.total_value {
            Some(m) => Some(m@.1),
            None => None::<Seq<char>>,
        },
        opt_text(r.total_pnl) == match v.total_pnl {
            Some(m) => Some(decimal_text(m@.0)),
            None => None::<Seq<char>>,
        },
        r.holdings@.len() == v.per_holding@.len(),
        forall|i: int|
            0 <= i < r.holdings@.len() ==> holding_valuation_dto_view(#[trigger] r.holdings@[i])
                == holding_valuation_record(v.per_holding@[i]),
{
    let mut holdings: Vec<HoldingValuationDto> = Vec::new();
    let mut i: usize = 0;
    while i < v.per_holding.len()
        invariant
            i <= v.per_holding@.len(),
            holdings@.len() == i,
            forall|j: int|
                0 <= j < i ==> holding_valuation_dto_view(#[trigger] holdings@[j])
                    == holding_valuation_record(v.per_holding@[j]),
        decreases v.per_holding@.len() - i,
    {
        holdings.push(holding_valuation_to_dto(&v.per_holding[i]));
        i = i + 1;
    }
    let total_value_currency = match v.total_value {
        Some(m) => Some(currency_text(&m)),
        None => None,
    };
    PortfolioValuationDto {
        total_value: money_amount_text(v.total_value),
        total_value_currency,
        total_pnl: money_amount_text(v.total_pnl),
        holdings,
    }
}

/// The record of an indicator snapshot.
pub fn snapshot_to_dto(s: &IndicatorSnapshot) -> (r: IndicatorSnapshotDto)
    ensures
        opt_text(r.sma_20) == opt_dec_text(s@.0),
        opt_text(r.sma_50) == opt_dec_text(s@.1),
        opt_text(r.ema_20) == opt_dec_text(s@.2),
        opt_text(r.rsi_14) == opt_dec_text(s@.3),
        opt_text(r.macd) == opt_dec_text(s@.4),
        opt_text(r.macd_signal) == opt_dec_text(s@.5),
        opt_text(r.bollinger_upper) == opt_dec_text(s@.6),
        opt_text(r.bollinger_lower) == opt_dec_text(s@.7),
{
    IndicatorSnapshotDto {
        sma_20: dec_text(s.sma_20),
        sma_50: dec_text(s.sma_50),
        ema_20: dec_text(s.ema_20),
        rsi_14: dec_text(s.rsi_14),
        macd: dec_text(s.macd),
        macd_signal: dec_text(s.macd_signal),
        bollinger_upper: dec_text(s.bollinger_upper),
        bollinger_lower: dec_text(s.bollinger_lower),
    }
}

/// The record of an alert rule: `above` or `below` with the amount and currency.
pub fn rule_to_dto(r: &AlertRule) -> (d: AlertRuleDto)
    ensures
        d.id == r.id,
        d.symbol@ == symbol_record(r.symbol@),
        d.condition@ == match r.condition {
            AlertCondition::Above(_) => "above"@,
            AlertCondition::Below(_) => "below"@,
        },
        opt_text(d.threshold_amount) == Some(
            decimal_text(
                match r.condition {
                    AlertCondition::Above(m) => m@.0,
                    AlertCondition::Below(m) => m@.0,
                },
            ),
        ),
        opt_text(d.threshold_currency) == Some(
            match r.condition {
                AlertCondition::Above(m) => m@.1,
                AlertCondition::Below(m) => m@.1,
            },
        ),
        d.enabled == r.enabled,
        d.cooldown_secs == r.cooldown_secs,
{
    let (cond, m) = match r.condition {
        AlertCondition::Above(m) => ("above", m),
        AlertCondition::Below(m) => ("below", m),
    };
    AlertRuleDto {
        id: r.id,
        symbol: symbol_to_dto(&r.symbol),
        condition: String::from_str(cond),
        threshold_amount: Some(m.amount().to_text()),
        threshold_currency: Some(currency_text(&m)),
        enabled: r.enabled,
        cooldown_secs: r.cooldown_secs,
    }
}

/// The condition a rule record describes: `above` or `below` with an amount (a decimal)
/// and a currency, checked in that order; any other condition is unknown.
pub open spec fn condition_from_record(
    condition: Seq<char>,
    amount: Option<Seq<char>>,
    currency: Option<Seq<char>>,
) -> Result<(bool, MoneyView), Seq<char>> {
    if condition == "above"@ || condition == "below"@ {
        match amount {
            None => Err("missing threshold_amount"@),
            Some(a) => match currency {
                None => Err("missing threshold_currency"@),
                Some(c) => match decimal_parse(a) {
                    None => Err(decimal_parse_error(a)),
                    Some(x) => if !is_currency_code(c) {
                        Err(debug_variant_text("InvalidCurrency"@, c))
                    } else {
                        Ok((condition == "above"@, (x, c)))
                    },
                },
            },
        }
    } else {
        Err("unknown condition: "@ + condition)
    }
}

/// The rule a record describes (never fired yet); the symbol is read first.
pub fn dto_to_rule(d: &AlertRuleDto) -> (r: Result<AlertRule, String>)
    ensures
        match symbol_from_record(d.symbol@) {
            Err(e) => r matches Err(t) && t@ == e,
            Ok(s) => match condition_from_record(
                d.condition@,
                opt_text(d.threshold_amount),
                opt_text(d.threshold_currency),
            ) {
                Err(e) => r matches Err(t) && t@ == e,
                Ok((above, m)) => r matches Ok(rule) && rule.id == d.id && rule.symbol@ == s
                    && rule.enabled == d.enabled && rule.cooldown_secs == d.cooldown_secs
                    && rule.last_fired_at is None && (if above {
                    rule.condition matches AlertCondition::Above(x) && x@ == m
                } else {
                    rule.condition matches AlertCondition::Below(x) && x@ == m
                }),
            },
        },
{
    let symbol = dto_to_symbol(&d.symbol)?;
    let cond = d.condition.as_str();
    let above = String::from_str(cond).eq(&String::from_str("above"));
    let below = String::from_str(cond).eq(&String::from_str("below"));
    if !(above || below) {
        let mut t = String::from_str("unknown condition: ");
        t.append(cond);
        return Err(t);
    }
    let amt_s = match &d.threshold_amount {
        Some(a) => a,
        None => {
            return Err(String::from_str("missing threshold_amount"));
        },
    };
    let ccy_s = match &d.threshold_currency {
        Some(c) => c,
        None => {
            return Err(String::from_str("missing threshold_currency"));
        },
    };
    let amount = Decimal::parse_with_error(amt_s.as_str())?;
    let ccy = match Currency::new(ccy_s.as_str()) {
        Ok(c) => c,
        Err(_) => {
            return Err(debug_variant("InvalidCurrency", ccy_s.as_str()));
        },
    };
    let money = Money::new(amount, ccy);
    let condition = if above {
        AlertCondition::Above(money)
    } else {
        AlertCondition::Below(money)
    };
    Ok(
        AlertRule {
            id: d.id,
            symbol,
            condition,
            enabled: d.enabled,
            cooldown_secs: d.cooldown_secs,
            last_fired_at: None,
        },
    )
}

/// The record of a price bar, by view: opening instant, open, high, low, close, volume.
pub open spec fn candle_record(c: Candle) -> (
    Seq<char>,
    Seq<char>,
    Seq<char>,
    Seq<char>,
    Seq<char>,
    Seq<char>,
) {
    (
        rfc3339_text(c.opened_at.secs_spec(), c.opened_at.nanos_spec()),
        decimal_text(c.open@.0),
        decimal_text(c.high@.0),
        decimal_text(c.low@.0),
        decimal_text(c.close@.0),
        decimal_text(c.volume@),
    )
}

/// The view of a bar record.
pub open spec fn candle_dto_view(d: CandleDto) -> (
    Seq<char>,
    Seq<char>,
    Seq<char>,
    Seq<char>,
    Seq<char>,
    Seq<char>,
) {
    (d.opened_at@, d.open@, d.high@, d.low@, d.close@, d.volume@)
}

/// The record of a price bar.
pub fn candle_to_dto(c: &Candle) -> (r: CandleDto)
    ensures
        r.opened_at@ == rfc3339_text(c.opened_at.secs_spec(), c.opened_at.nanos_spec()),
        r.open@ == decimal_text(c.open@.0),
        r.high@ == decimal_text(c.high@.0),
        r.low@ == decimal_text(c.low@.0),
        r.close@ == decimal_text(c.close@.0),
        r.volume@ == decimal_text(c.volume@),
{
    CandleDto {
        opened_at: c.opened_at.to_rfc3339(),
        open: c.open.money().amount().to_text(),
        high: c.high.money().amount().to_text(),
        low: c.low.money().amount().to_text(),
        close: c.close.money().amount().to_text(),
        volume: c.volume.to_text(),
    }
}

/// The texts of a series.
fn series_to_text(v: &Vec<Option<Decimal>>) -> (r: Vec<Option<String>>)
    ensures
        opt_texts(r@) == series_text(series_view(v@)),
{
    let mut out: Vec<Option<String>> = Vec::new();
    let mut i: usize = 0;
    while i < v.len()
        invariant
            i <= v@.len(),
            opt_texts(out@) == series_text(series_view(v@)).take(i as int),
        decreases v@.len() - i,
    {
        let ghost before = out@;
        let t = dec_text(v[i]);
        out.push(t);
        proof {
            assert(opt_texts(out@) =~= opt_texts(before).push(opt_text(t)));
            assert(series_text(series_view(v@)).take(i + 1) =~= series_text(series_view(v@)).take(
                i as int,
            ).push(opt_text(t)));
        }
        i = i + 1;
    }
    proof {
        assert(series_text(series_view(v@)).take(i as int) =~= series_text(series_view(v@)));
    }
    out
}

/// The chart for `candles` with the indicator `series` computed over them: one record per
/// bar and the six drawn series as text.
pub fn chart_data_dto(candles: &[Candle], series: &IndicatorSeries) -> (r: ChartDataDto)
    ensures
        r.candles@.len() == candles@.len(),
        forall|i: int|
            0 <= i < candles@.len() ==> candle_dto_view(#[trigger] r.candles@[i]) == candle_record(
                candles@[i],
            ),
        opt_texts(r.sma_20@) == series_text(series@.0),
        opt_texts(r.sma_50@) == series_text(series@.1),
        opt_texts(r.rsi_14@) == series_text(series@.3),
        opt_texts(r.macd@) == series_text(series@.4),
        opt_texts(r.macd_signal@) == series_text(series@.5),
        opt_texts(r.macd_histogram@) == series_text(series@.6),
{
    let mut bars: Vec<CandleDto> = Vec::new();
    let mut i: usize = 0;
    while i < candles.len()
        invariant
            i <= candles@.len(),
            bars@.len() == i,
            forall|j: int|
                0 <= j < i ==> candle_dto_view(#[trigger] bars@[j]) == candle_record(candles@[j]),
        decreases candles@.len() - i,
    {
        bars.push(candle_to_dto(&candles[i]));
        i = i + 1;
    }
    ChartDataDto {
        candles: bars,
        sma_20: series_to_text(&series.sma_20),
        sma_50: series_to_text(&series.sma_50),
        rsi_14: series_to_text(&series.rsi_14),
        macd: series_to_text(&series.macd),
        macd_signal: series_to_text(&series.macd_signal),
        macd_histogram: series_to_text(&series.macd_histogram),
    }
}

} // verus!
