//! The decisions of a market refresh. Every watchlist symbol is offered to the
//! providers that support it, in order, until one returns quotes; the failures of a
//! symbol that got none are reported, not raised. Candles are looked up the same way.
//! The caller performs the provider calls and hands each answer to these types.
use crate::candle::Candle;
use crate::ports::{provider_error_text, repo_error_text, ProviderError, RepoError};
use crate::quote::{Quote, QuoteMap, QuoteView};
use crate::symbol::{canonical_text, Symbol, SymbolView};
use vstd::prelude::*;
use vstd::string::StringExecFns;

verus! {

/// Why a market operation failed.
#[derive(Debug)]
pub enum MarketError {
    Provider(ProviderError),
    Repo(RepoError),
    NoProvider(String),
}

/// The message of a market failure.
pub open spec fn market_error_text(e: MarketError) -> Seq<char> {
    match e {
        MarketError::Provider(p) => "provider: "@ + provider_error_text(p),
        MarketError::Repo(r) => "repo: "@ + repo_error_text(r),
        MarketError::NoProvider(s) => "no provider supports symbol: "@ + s@,
    }
}

impl MarketError {
    /// The message the error is shown with.
    pub fn message(&self) -> (r: String)
        ensures
            r@ == market_error_text(*self),
    {
        match self {
            MarketError::Provider(p) => {
                let mut r = String::from_str("provider: ");
                let m = p.message();
                r.append(m.as_str());
                r
            },
            MarketError::Repo(e) => {
                let mut r = String::from_str("repo: ");
                let m = e.message();
                r.append(m.as_str());
                r
            },
            MarketError::NoProvider(s) => {
                let mut r = String::from_str("no provider supports symbol: ");
                r.append(s.as_str());
                r
            },
        }
    }
}

/// A symbol that got no quote in a refresh: which provider failed last (empty when no
/// provider supports the symbol) and why.
#[derive(Debug, Clone)]
pub struct SymbolError {
    pub symbol_canonical: String,
    pub provider: String,
    pub error: String,
}

impl View for SymbolError {
    type V = (Seq<char>, Seq<char>, Seq<char>);

    open spec fn view(&self) -> (Seq<char>, Seq<char>, Seq<char>) {
        (self.symbol_canonical@, self.provider@, self.error@)
    }
}

/// The quotes and the per-symbol failures of one refresh.
#[derive(Debug)]
pub struct RefreshOutcome {
    pub quotes: Vec<Quote>,
    pub errors: Vec<SymbolError>,
}

impl Default for RefreshOutcome {
    fn default() -> (r: RefreshOutcome)
        ensures
            r.quotes@.len() == 0,
            r.errors@.len() == 0,
    {
        RefreshOutcome { quotes: Vec::new(), errors: Vec::new() }
    }
}

/// The error reported for a symbol that no provider supports.
pub fn no_provider_error(symbol: &Symbol) -> (r: SymbolError)
    ensures
        r@ == (canonical_text(symbol@), Seq::<char>::empty(), "no provider supports this symbol"@),
{
    SymbolError {
        symbol_canonical: symbol.to_canonical_string(),
        provider: String::new(),
        error: String::from_str("no provider supports this symbol"),
    }
}

/// The views of a list of quotes.
pub open spec fn quote_views(qs: Seq<Quote>) -> Seq<QuoteView> {
    qs.map_values(|q: Quote| q@)
}

/// `m` after recording `qs` in order: each quote goes in under its symbol, a later
/// quote of a symbol replacing an earlier one.
pub open spec fn with_quotes(m: Map<SymbolView, QuoteView>, qs: Seq<QuoteView>) -> Map<
    SymbolView,
    QuoteView,
>
    decreases qs.len(),
{
    if qs.len() == 0 {
        m
    } else {
        with_quotes(m, qs.drop_last()).insert(qs.last().0, qs.last())
    }
}

/// Recording two lists one after the other records their concatenation: the quotes
/// kept over a whole refresh are the quotes it reports, in order.
pub proof fn lemma_with_quotes_append(
    m: Map<SymbolView, QuoteView>,
    a: Seq<QuoteView>,
    b: Seq<QuoteView>,
)
    ensures
        with_quotes(with_quotes(m, a), b) == with_quotes(m, a + b),
    decreases b.len(),
{
    if b.len() == 0 {
        assert(a + b =~= a);
    } else {
        lemma_with_quotes_append(m, a, b.drop_last());
        assert((a + b).drop_last() =~= a + b.drop_last());
        assert((a + b).last() == b.last());
    }
}

/// Recording quotes leaves the entry of every symbol that none of them is for as it
/// was, and gives every symbol that one of them is for an entry.
pub proof fn lemma_with_quotes_entries(
    m: Map<SymbolView, QuoteView>,
    qs: Seq<QuoteView>,
    k: SymbolView,
)
    ensures
        (forall|j: int| 0 <= j < qs.len() ==> qs[j].0 != k) ==> (with_quotes(m, qs).contains_key(k)
            == m.contains_key(k) && with_quotes(m, qs)[k] == m[k]),
        (exists|j: int| 0 <= j < qs.len() && qs[j].0 == k) ==> with_quotes(m, qs).contains_key(
            k,
        ),
    decreases qs.len(),
{
    if qs.len() > 0 {
        let init = qs.drop_last();
        lemma_with_quotes_entries(m, init, k);
        if forall|j: int| 0 <= j < qs.len() ==> qs[j].0 != k {
            assert(qs[qs.len() - 1].0 != k);
            assert forall|j: int| 0 <= j < init.len() implies init[j].0 != k by {
                assert(init[j] == qs[j]);
            }
        }
        if exists|j: int| 0 <= j < qs.len() && qs[j].0 == k {
            let j = choose|j: int| 0 <= j < qs.len() && qs[j].0 == k;
            if j < qs.len() - 1 {
                assert(init[j] == qs[j]);
            }
        }
    }
}

/// Keeps the quotes a provider returned for one symbol: each goes into the snapshot
/// under its symbol and onto the outcome's quotes, in order; the outcome's errors stay.
///
/// Over a whole refresh: the refresh starts with an outcome that reports no quotes, so
/// the snapshot is then the starting snapshot updated with every reported quote; each
/// call keeps it so (the last clause), and pushing an error changes no quote. When the
/// refresh ends, the snapshot is the starting one updated, in order, with `q.symbol ->
/// q` for every reported quote `q`, and no other entry changed
/// (`lemma_with_quotes_entries`).
pub fn keep_quotes(snapshot: &mut QuoteMap, outcome: &mut RefreshOutcome, quotes: Vec<Quote>)
    ensures
        final(snapshot)@ == with_quotes(old(snapshot)@, quote_views(quotes@)),
        quote_views(final(outcome).quotes@) == quote_views(old(outcome).quotes@) + quote_views(
            quotes@,
        ),
        final(outcome).errors@ == old(outcome).errors@,
        forall|start: Map<SymbolView, QuoteView>|
            #[trigger] with_quotes(start, quote_views(old(outcome).quotes@)) == old(snapshot)@
                ==> final(snapshot)@ == with_quotes(start, quote_views(final(outcome).quotes@)),
{
    let ghost m0 = snapshot@;
    let ghost q0 = quote_views(outcome.quotes@);
    let ghost e0 = outcome.errors@;
    let ghost vs = quote_views(quotes@);
    let mut i: usize = 0;
    while i < quotes.len()
        invariant
            i <= quotes@.len(),
            vs == quote_views(quotes@),
            snapshot@ == with_quotes(m0, vs.take(i as int)),
            quote_views(outcome.quotes@) == q0 + vs.take(i as int),
            outcome.errors@ == e0,
        decreases quotes@.len() - i,
    {
        let q = quotes[i].clone();
        let key = q.symbol.clone();
        let kept = q.clone();
        snapshot.insert(key, kept);
        let ghost before = outcome.quotes@;
        outcome.quotes.push(q);
        proof {
            let t = vs.take(i + 1);
            assert(t.drop_last() =~= vs.take(i as int));
            assert(t.last() == quotes@[i as int]@);
            assert(quote_views(outcome.quotes@) =~= quote_views(before).push(quotes@[i as int]@));
            assert(quote_views(outcome.quotes@) =~= q0 + t);
        }
        i = i + 1;
    }
    proof {
        assert(vs.take(quotes@.len() as int) =~= vs);
        assert forall|start: Map<SymbolView, QuoteView>|
            #[trigger] with_quotes(start, q0) == m0 implies snapshot@ == with_quotes(
                start,
                quote_views(outcome.quotes@),
            ) by {
            lemma_with_quotes_append(start, q0, vs);
        }
    }
}

/// A refresh starts from its snapshot: while the outcome reports no quotes (as
/// `RefreshOutcome::default` gives it), the snapshot is the starting one.
pub proof fn lemma_refresh_starts(start: Map<SymbolView, QuoteView>, quotes: Seq<Quote>)
    requires
        quotes.len() == 0,
    ensures
        with_quotes(start, quote_views(quotes)) == start,
{
    assert(quote_views(quotes) =~= Seq::<QuoteView>::empty());
}

/// What one provider answered to a request for quotes.
#[derive(Debug)]
pub enum QuoteAttempt {
    Quotes(Vec<Quote>),
    Failed(ProviderError),
}

/// The fallback over the providers that support one symbol: remembers the failure of
/// the last provider tried.
#[derive(Debug)]
pub struct SymbolRefresh {
    canonical: String,
    last_err: Option<SymbolError>,
}

impl SymbolRefresh {
    /// The canonical text of the symbol being refreshed.
    pub closed spec fn canonical(&self) -> Seq<char> {
        self.canonical@
    }

    /// The failure of the last provider tried, if any.
    pub closed spec fn last_error(&self) -> Option<(Seq<char>, Seq<char>, Seq<char>)> {
        match self.last_err {
            Some(e) => Some(e@),
            None => None,
        }
    }

    /// A refresh of `symbol` before any provider was tried.
    pub fn start(symbol: &Symbol) -> (r: SymbolRefresh)
        ensures
            r.canonical() == canonical_text(symbol@),
            r.last_error() is None,
    {
        SymbolRefresh { canonical: symbol.to_canonical_string(), last_err: None }
    }

    /// Takes the answer of `provider`. Non-empty quotes end the fallback and are handed
    /// back to be kept; an empty answer or a failure is remembered as the last error
    /// (`empty result`, or the failure's message), and the next provider is to be tried.
    pub fn record(&mut self, provider: &str, attempt: QuoteAttempt) -> (r: Option<Vec<Quote>>)
        ensures
            final(self).canonical() == old(self).canonical(),
            match attempt {
                QuoteAttempt::Quotes(qs) => if qs@.len() > 0 {
                    r == Some(qs) && final(self).last_error() == old(self).last_error()
                } else {
                    r is None && final(self).last_error() == Some(
                        (old(self).canonical(), provider@, "empty result"@),
                    )
                },
                QuoteAttempt::Failed(e) => r is None && final(self).last_error() == Some(
                    (old(self).canonical(), provider@, provider_error_text(e)),
                ),
            },
    {
        match attempt {
            QuoteAttempt::Quotes(qs) => {
                if qs.len() > 0 {
                    Some(qs)
                } else {
                    self.last_err = Some(
                        SymbolError {
                            symbol_canonical: self.canonical.clone(),
                            provider: String::from_str(provider),
                            error: String::from_str("empty result"),
                        },
                    );
                    None
                }
            },
            QuoteAttempt::Failed(e) => {
                self.last_err = Some(
                    SymbolError {
                        symbol_canonical: self.canonical.clone(),
                        provider: String::from_str(provider),
                        error: e.message(),
                    },
                );
                None
            },
        }
    }

    /// After every supporting provider was tried without quotes: the failure to report,
    /// the last provider's.
    pub fn finish(self) -> (r: Option<SymbolError>)
        ensures
            match r {
                Some(e) => self.last_error() == Some(e@),
                None => self.last_error() is None,
            },
    {
        self.last_err
    }
}

/// What one provider answered to a request for candles.
#[derive(Debug)]
pub enum CandleAttempt {
    Candles(Vec<Candle>),
    Failed(ProviderError),
}

/// The fallback over the providers that support a symbol, for candles: remembers the
/// last failure (an empty answer is not one).
#[derive(Debug)]
pub struct CandleSearch {
    last_err: Option<ProviderError>,
}

impl CandleSearch {
    /// The last failure seen, if any.
    pub closed spec fn last_error(&self) -> Option<ProviderError> {
        self.last_err
    }

    /// A search before any provider was tried.
    pub fn new() -> (r: CandleSearch)
        ensures
            r.last_error() is None,
    {
        CandleSearch { last_err: None }
    }

    /// Takes one provider's answer: non-empty candles end the search and are handed back;
    /// an empty answer changes nothing; a failure becomes the last failure.
    pub fn record(&mut self, attempt: CandleAttempt) -> (r: Option<Vec<Candle>>)
        ensures
            match attempt {
                CandleAttempt::Candles(cs) => if cs@.len() > 0 {
                    r == Some(cs) && final(self).last_error() == old(self).last_error()
                } else {
                    r is None && final(self).last_error() == old(self).last_error()
                },
                CandleAttempt::Failed(e) => r is None && final(self).last_error() == Some(e),
            },
    {
        match attempt {
            CandleAttempt::Candles(cs) => {
                if cs.len() > 0 {
                    Some(cs)
                } else {
                    None
                }
            },
            CandleAttempt::Failed(e) => {
                self.last_err = Some(e);
                None
            },
        }
    }

    /// After every supporting provider was tried without candles: the last failure, or
    /// an upstream error saying that no provider returned candles.
    pub fn finish(self) -> (r: MarketError)
        ensures
            match self.last_error() {
                Some(e) => r == MarketError::Provider(e),
                None => r matches MarketError::Provider(ProviderError::Upstream(s)) && s@
                    == "no provider returned candles"@,
            },
    {
        match self.last_err {
            Some(e) => MarketError::Provider(e),
            None => MarketError::Provider(
                ProviderError::Upstream(String::from_str("no provider returned candles")),
            ),
        }
    }
}

/// The failure for a symbol that no provider supports, when candles are asked for.
pub fn no_candle_provider(symbol: &Symbol) -> (r: MarketError)
    ensures
        r matches MarketError::NoProvider(s) && s@ == canonical_text(symbol@),
{
    MarketError::NoProvider(symbol.to_canonical_string())
}

} // verus!
