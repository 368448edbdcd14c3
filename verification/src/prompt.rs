//! The prompts sent to a language model: a system prompt per preset and a user
//! message that lists the asset, its price, its indicators and recent headlines.
use crate::asset::AssetKind;
use crate::decimal::{decimal_checked_mul, decimal_text, opt_view, Decimal};
use crate::quote::{Quote, QuoteView};
use crate::symbol::{Symbol, SymbolView};
use vstd::prelude::*;
use vstd::string::StringExecFns;

verus! {

/// The indicator values quoted in a prompt.
#[derive(Debug, Clone, Copy)]
pub struct IndicatorContext {
    pub rsi_14: Option<Decimal>,
    pub macd: Option<Decimal>,
    pub macd_signal: Option<Decimal>,
    pub sma_20: Option<Decimal>,
    pub sma_50: Option<Decimal>,
}

/// A headline and where it was published.
#[derive(Debug, Clone, Copy)]
pub struct HeadlineRef<'a> {
    pub title: &'a str,
    pub source: &'a str,
}

/// Everything a prompt may quote about one asset.
#[derive(Debug)]
pub struct PromptContext<'a> {
    pub symbol: &'a Symbol,
    pub quote: Option<&'a Quote>,
    pub indicators: Option<IndicatorContext>,
    pub headlines: &'a [HeadlineRef<'a>],
}

/// Which preset analysis a turn is; a conversation started by a free-form message is
/// commentary.
#[derive(Debug, Clone, Copy, PartialEq, Eq, Structural)]
pub enum PromptKind {
    Commentary,
    ChartAnalysis,
    NewsSummary,
}

impl Default for PromptKind {
    fn default() -> (r: PromptKind)
        ensures
            r == PromptKind::Commentary,
    {
        PromptKind::Commentary
    }
}

/// The view of the indicator values.
pub type IndicatorView = (
    Option<(int, nat)>,
    Option<(int, nat)>,
    Option<(int, nat)>,
    Option<(int, nat)>,
    Option<(int, nat)>,
);

impl View for IndicatorContext {
    type V = IndicatorView;

    open spec fn view(&self) -> IndicatorView {
        (
            opt_view(self.rsi_14),
            opt_view(self.macd),
            opt_view(self.macd_signal),
            opt_view(self.sma_20),
            opt_view(self.sma_50),
        )
    }
}

/// The title and source of each headline.
pub open spec fn headline_views(s: Seq<HeadlineRef>) -> Seq<(Seq<char>, Seq<char>)> {
    s.map_values(|h: HeadlineRef| (h.title@, h.source@))
}

/// The view of a prompt context.
pub type ContextView = (
    SymbolView,
    Option<QuoteView>,
    Option<IndicatorView>,
    Seq<(Seq<char>, Seq<char>)>,
);

impl<'a> View for PromptContext<'a> {
    type V = ContextView;

    open spec fn view(&self) -> ContextView {
        (
            self.symbol@,
            match self.quote {
                Some(q) => Some(q@),
                None => None,
            },
            match self.indicators {
                Some(i) => Some(i@),
                None => None,
            },
            headline_views(self.headlines@),
        )
    }
}

/// The name a preset is requested by.
pub open spec fn kind_name(k: PromptKind) -> Seq<char> {
    match k {
        PromptKind::Commentary => "commentary"@,
        PromptKind::ChartAnalysis => "chart_analysis"@,
        PromptKind::NewsSummary => "news_summary"@,
    }
}

/// The preset requested by `s`, if any.
pub open spec fn parse_kind(s: Seq<char>) -> Option<PromptKind> {
    if s == kind_name(PromptKind::Commentary) {
        Some(PromptKind::Commentary)
    } else if s == kind_name(PromptKind::ChartAnalysis) {
        Some(PromptKind::ChartAnalysis)
    } else if s == kind_name(PromptKind::NewsSummary) {
        Some(PromptKind::NewsSummary)
    } else {
        None
    }
}

/// Each preset is parsed back from its own name.
pub proof fn lemma_kind_name_round_trip(k: PromptKind)
    ensures
        parse_kind(kind_name(k)) == Some(k),
{
    reveal_strlit("commentary");
    reveal_strlit("chart_analysis");
    reveal_strlit("news_summary");
    assert(kind_name(PromptKind::Commentary).len() == 10);
    assert(kind_name(PromptKind::ChartAnalysis).len() == 14);
    assert(kind_name(PromptKind::NewsSummary).len() == 12);
}

/// The system prompt of each preset.
pub open spec fn system_text(k: PromptKind) -> Seq<char> {
    match k {
        PromptKind::Commentary => "You are a concise financial-data assistant. Reply in 3-4 short sentences. Avoid jargon. Never give buy/sell advice. If data is missing, say so."@,
        PromptKind::ChartAnalysis => "You are a technical-analysis assistant. Interpret indicators objectively in 3-5 short sentences. Explain what RSI, MACD, and the moving averages suggest about momentum and trend. Never give buy/sell advice."@,
        PromptKind::NewsSummary => "You are a financial-news summarizer. Summarize headlines neutrally in 3-4 short sentences, grouping related themes. Never give buy/sell advice. If there are no headlines, say so."@,
    }
}

/// The closing request of each preset's first user message.
pub open spec fn instruction_text(k: PromptKind) -> Seq<char> {
    match k {
        PromptKind::Commentary => "\nBriefly summarize what's driving the recent price action and what the indicators are saying."@,
        PromptKind::ChartAnalysis => "\nAnalyze the technical indicators above: interpret the RSI level, the MACD versus its signal line, and the SMA(20) versus SMA(50) relationship. Say what they jointly suggest about momentum and trend."@,
        PromptKind::NewsSummary => "\nSummarize the key themes across the recent headlines above. If no headlines are present, say that no recent news was found."@,
    }
}

/// The name of an asset class as its debug form prints it.
pub open spec fn kind_debug(k: AssetKind) -> Seq<char> {
    match k {
        AssetKind::Crypto => "Crypto"@,
        AssetKind::UsEquity => "UsEquity"@,
        AssetKind::KrEquity => "KrEquity"@,
        AssetKind::Forex => "Forex"@,
        AssetKind::Commodity => "Commodity"@,
    }
}

/// `Asset: TICKER (Kind)`.
pub open spec fn asset_line(s: SymbolView) -> Seq<char> {
    "Asset: "@ + s.1 + " ("@ + kind_debug(s.0) + ")\n"@
}

/// The price line and, where there is one, the 24-hour change in percent; `None` where
/// the change overflows when scaled to percent.
pub open spec fn quote_lines(q: Option<QuoteView>) -> Option<Seq<char>> {
    match q {
        None => Some(Seq::empty()),
        Some(q) => {
            let price = "Current price: "@ + decimal_text(q.1.0) + " "@ + q.1.1 + "\n"@;
            match q.2 {
                None => Some(price),
                Some(c) => match decimal_checked_mul(c, (100int, 0nat)) {
                    None => None,
                    Some(pct) => Some(price + "24h change: "@ + decimal_text(pct) + "%\n"@),
                },
            }
        },
    }
}

/// `label value` and a line break where the value is present.
pub open spec fn value_line(label: Seq<char>, v: Option<(int, nat)>) -> Seq<char> {
    match v {
        Some(x) => label + decimal_text(x) + "\n"@,
        None => Seq::empty(),
    }
}

/// The indicator lines: RSI, MACD with its signal (only when both are present), and the
/// two moving averages.
pub open spec fn indicator_lines(i: Option<IndicatorView>) -> Seq<char> {
    match i {
        None => Seq::empty(),
        Some(i) => value_line("RSI(14): "@, i.0) + match (i.1, i.2) {
            (Some(m), Some(s)) => "MACD: "@ + decimal_text(m) + " (signal "@ + decimal_text(s)
                + ")\n"@,
            _ => Seq::empty(),
        } + value_line("SMA(20): "@, i.3) + value_line("SMA(50): "@, i.4),
    }
}

/// One `- title (source)` line per headline.
pub open spec fn headline_lines(h: Seq<(Seq<char>, Seq<char>)>) -> Seq<char>
    decreases h.len(),
{
    if h.len() == 0 {
        Seq::empty()
    } else {
        headline_lines(h.drop_last()) + "- "@ + h.last().0 + " ("@ + h.last().1 + ")\n"@
    }
}

/// The headline section, absent when there are no headlines.
pub open spec fn headline_section(h: Seq<(Seq<char>, Seq<char>)>) -> Seq<char> {
    if h.len() == 0 {
        Seq::empty()
    } else {
        "Recent headlines:\n"@ + headline_lines(h)
    }
}

/// The data that opens every preset's first user message; `None` where the 24-hour
/// change overflows when scaled to percent.
pub open spec fn data_block_spec(c: ContextView) -> Option<Seq<char>> {
    match quote_lines(c.1) {
        None => None,
        Some(ql) => Some(asset_line(c.0) + ql + indicator_lines(c.2) + headline_section(c.3)),
    }
}

/// The system prompt and first user message of a preset.
pub open spec fn prompt_spec(k: PromptKind, c: ContextView) -> Option<(Seq<char>, Seq<char>)> {
    match data_block_spec(c) {
        None => None,
        Some(d) => Some((system_text(k), d + instruction_text(k))),
    }
}

impl PromptKind {
    /// The preset named `commentary`, `chart_analysis` or `news_summary`.
    pub fn parse(s: &str) -> (r: Option<PromptKind>)
        ensures
            r == parse_kind(s@),
    {
        let given = String::from_str(s);
        if given.eq(&String::from_str("commentary")) {
            Some(PromptKind::Commentary)
        } else if given.eq(&String::from_str("chart_analysis")) {
            Some(PromptKind::ChartAnalysis)
        } else if given.eq(&String::from_str("news_summary")) {
            Some(PromptKind::NewsSummary)
        } else {
            None
        }
    }
}

/// The system prompt for a conversation of the given kind, used both for the first
/// preset turn and for free-form follow-ups.
pub fn system_prompt(kind: PromptKind) -> (r: String)
    ensures
        r@ == system_text(kind),
{
    match kind {
        PromptKind::Commentary => String::from_str(
            "You are a concise financial-data assistant. Reply in 3-4 short sentences. Avoid jargon. Never give buy/sell advice. If data is missing, say so.",
        ),
        PromptKind::ChartAnalysis => String::from_str(
            "You are a technical-analysis assistant. Interpret indicators objectively in 3-5 short sentences. Explain what RSI, MACD, and the moving averages suggest about momentum and trend. Never give buy/sell advice.",
        ),
        PromptKind::NewsSummary => String::from_str(
            "You are a financial-news summarizer. Summarize headlines neutrally in 3-4 short sentences, grouping related themes. Never give buy/sell advice. If there are no headlines, say so.",
        ),
    }
}

/// The closing request of a preset's first user message.
fn instruction(kind: PromptKind) -> (r: &'static str)
    ensures
        r@ == instruction_text(kind),
{
    match kind {
        PromptKind::Commentary => "\nBriefly summarize what's driving the recent price action and what the indicators are saying.",
        PromptKind::ChartAnalysis => "\nAnalyze the technical indicators above: interpret the RSI level, the MACD versus its signal line, and the SMA(20) versus SMA(50) relationship. Say what they jointly suggest about momentum and trend.",
        PromptKind::NewsSummary => "\nSummarize the key themes across the recent headlines above. If no headlines are present, say that no recent news was found.",
    }
}

/// The debug name of an asset class.
fn kind_debug_str(k: AssetKind) -> (r: &'static str)
    ensures
        r@ == kind_debug(k),
{
    match k {
        AssetKind::Crypto => "Crypto",
        AssetKind::UsEquity => "UsEquity",
        AssetKind::KrEquity => "KrEquity",
        AssetKind::Forex => "Forex",
        AssetKind::Commodity => "Commodity",
    }
}

/// Appends `label value\n` where the value is present.
fn push_value_line(out: &mut String, label: &str, v: Option<Decimal>)
    ensures
        final(out)@ == old(out)@ + value_line(label@, opt_view(v)),
{
    match v {
        Some(x) => {
            let t = x.to_text();
            out.append(label);
            out.append(t.as_str());
            out.append("\n");
        },
        None => {
            assert(old(out)@ + Seq::<char>::empty() =~= old(out)@);
        },
    }
}

/// The lines for the price, the 24-hour change and the indicators, appended to `out`;
/// `false` where the change overflows when scaled to percent.
fn push_quote_lines(out: &mut String, quote: Option<&Quote>) -> (ok: bool)
    ensures
        ok <==> quote_lines(match quote {
            Some(q) => Some(q@),
            None => None,
        }) is Some,
        ok ==> final(out)@ == old(out)@ + quote_lines(match quote {
            Some(q) => Some(q@),
            None => None,
        })->0,
{
    match quote {
        None => {
            assert(old(out)@ + Seq::<char>::empty() =~= old(out)@);
            true
        },
        Some(q) => {
            let m = q.price.money();
            let amount = m.amount().to_text();
            let currency = m.currency();
            out.append("Current price: ");
            out.append(amount.as_str());
            out.append(" ");
            out.append(currency.as_str());
            out.append("\n");
            match q.change_24h {
                None => true,
                Some(c) => match c.checked_mul(&Decimal::from_int(100)) {
                    None => false,
                    Some(pct) => {
                        let t = pct.to_text();
                        out.append("24h change: ");
                        out.append(t.as_str());
                        out.append("%\n");
                        true
                    },
                },
            }
        },
    }
}

/// Appends the indicator lines.
fn push_indicator_lines(out: &mut String, indicators: Option<IndicatorContext>)
    ensures
        final(out)@ == old(out)@ + indicator_lines(match indicators {
            Some(i) => Some(i@),
            None => None,
        }),
{
    match indicators {
        Some(ind) => {
            let ghost start = out@;
            push_value_line(out, "RSI(14): ", ind.rsi_14);
            let ghost after_rsi = out@;
            match (ind.macd, ind.macd_signal) {
                (Some(m), Some(s)) => {
                    let mt = m.to_text();
                    let st = s.to_text();
                    out.append("MACD: ");
                    out.append(mt.as_str());
                    out.append(" (signal ");
                    out.append(st.as_str());
                    out.append(")\n");
                },
                _ => {
                    assert(after_rsi + Seq::<char>::empty() =~= after_rsi);
                },
            }
            push_value_line(out, "SMA(20): ", ind.sma_20);
            push_value_line(out, "SMA(50): ", ind.sma_50);
            assert(out@ =~= start + indicator_lines(Some(ind@)));
        },
        None => {
            assert(old(out)@ + Seq::<char>::empty() =~= old(out)@);
        },
    }
}

/// Appends the headline section.
fn push_headline_section(out: &mut String, headlines: &[HeadlineRef])
    ensures
        final(out)@ == old(out)@ + headline_section(headline_views(headlines@)),
{
    let ghost hs = headline_views(headlines@);
    if headlines.len() == 0 {
        assert(old(out)@ + Seq::<char>::empty() =~= old(out)@);
        return;
    }
    out.append("Recent headlines:\n");
    let ghost before = out@;
    let mut i: usize = 0;
    while i < headlines.len()
        invariant
            i <= headlines@.len(),
            hs == headline_views(headlines@),
            out@ == before + headline_lines(hs.subrange(0, i as int)),
        decreases headlines@.len() - i,
    {
        let h = headlines[i];
        out.append("- ");
        out.append(h.title);
        out.append(" (");
        out.append(h.source);
        out.append(")\n");
        proof {
            assert(hs.subrange(0, (i + 1) as int).drop_last() =~= hs.subrange(0, i as int));
        }
        i = i + 1;
    }
    proof {
        assert(hs.subrange(0, hs.len() as int) =~= hs);
    }
    assert(out@ =~= old(out)@ + headline_section(hs));
}

/// The shared data (asset, price, indicators, headlines) that opens every preset's first
/// user message; `None` where the 24-hour change overflows when scaled to percent.
fn data_block(ctx: &PromptContext) -> (r: Option<String>)
    ensures
        match r {
            None => data_block_spec(ctx@) is None,
            Some(s) => data_block_spec(ctx@) == Some(s@),
        },
{
    let mut user = String::from_str("Asset: ");
    user.append(ctx.symbol.ticker());
    user.append(" (");
    user.append(kind_debug_str(ctx.symbol.kind()));
    user.append(")\n");
    let ghost head = user@;
    if !push_quote_lines(&mut user, ctx.quote) {
        return None;
    }
    let ghost after_quote = user@;
    push_indicator_lines(&mut user, ctx.indicators);
    let ghost after_ind = user@;
    push_headline_section(&mut user, ctx.headlines);
    proof {
        assert(head =~= asset_line(ctx@.0));
        assert(user@ =~= head + quote_lines(ctx@.1)->0 + indicator_lines(ctx@.2) + headline_section(
            ctx@.3,
        ));
    }
    Some(user)
}

/// The system prompt and first user message of `kind`, or `None` where the 24-hour
/// change overflows when scaled to percent.
pub fn try_build_prompt(kind: PromptKind, ctx: &PromptContext) -> (r: Option<(String, String)>)
    ensures
        match r {
            None => prompt_spec(kind, ctx@) is None,
            Some((sys, user)) => prompt_spec(kind, ctx@) == Some((sys@, user@)),
        },
{
    let mut user = data_block(ctx)?;
    user.append(instruction(kind));
    Some((system_prompt(kind), user))
}

/// The commentary preset: the data block, then a request to summarise what drives the
/// price and what the indicators say.
pub fn build_commentary_prompt(ctx: &PromptContext) -> (r: (String, String))
    requires
        data_block_spec(ctx@) is Some,
    ensures
        prompt_spec(PromptKind::Commentary, ctx@) == Some((r.0@, r.1@)),
{
    try_build_prompt(PromptKind::Commentary, ctx).unwrap()
}

/// The chart-analysis preset: the data block, then a request to interpret RSI, MACD
/// against its signal and SMA(20) against SMA(50).
pub fn build_chart_analysis_prompt(ctx: &PromptContext) -> (r: (String, String))
    requires
        data_block_spec(ctx@) is Some,
    ensures
        prompt_spec(PromptKind::ChartAnalysis, ctx@) == Some((r.0@, r.1@)),
{
    try_build_prompt(PromptKind::ChartAnalysis, ctx).unwrap()
}

/// The news-summary preset: the data block, then a request to summarise the headlines.
pub fn build_news_summary_prompt(ctx: &PromptContext) -> (r: (String, String))
    requires
        data_block_spec(ctx@) is Some,
    ensures
        prompt_spec(PromptKind::NewsSummary, ctx@) == Some((r.0@, r.1@)),
{
    try_build_prompt(PromptKind::NewsSummary, ctx).unwrap()
}

/// The builder for `kind`.
pub fn build_prompt(kind: PromptKind, ctx: &PromptContext) -> (r: (String, String))
    requires
        data_block_spec(ctx@) is Some,
    ensures
        prompt_spec(kind, ctx@) == Some((r.0@, r.1@)),
{
    match kind {
        PromptKind::Commentary => build_commentary_prompt(ctx),
        PromptKind::ChartAnalysis => build_chart_analysis_prompt(ctx),
        PromptKind::NewsSummary => build_news_summary_prompt(ctx),
    }
}

} // verus!
