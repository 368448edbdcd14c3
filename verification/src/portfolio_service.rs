//! Portfolio valuation as the service runs it: every total in US dollars, converted
//! with a snapshot of the live exchange rates.
use crate::fx::FxRates;
use crate::money::Currency;
use crate::portfolio::Portfolio;
use crate::portfolio_calc::{evaluate_spec, try_evaluate, PortfolioValuation};
use crate::ports::{repo_error_text, RepoError};
use crate::quote::QuoteMap;
use vstd::prelude::*;
use vstd::string::StringExecFns;

verus! {

/// Why a portfolio operation failed.
#[derive(Debug)]
pub enum PortfolioError {
    Repo(RepoError),
}

/// The message of a portfolio failure.
pub open spec fn portfolio_error_text(e: PortfolioError) -> Seq<char> {
    match e {
        PortfolioError::Repo(r) => "repo: "@ + repo_error_text(r),
    }
}

impl PortfolioError {
    /// The message the error is shown with.
    pub fn message(&self) -> (r: String)
        ensures
            r@ == portfolio_error_text(*self),
    {
        match self {
            PortfolioError::Repo(e) => {
                let mut r = String::from_str("repo: ");
                let m = e.message();
                r.append(m.as_str());
                r
            },
        }
    }
}

/// The US dollar.
pub open spec fn usd_code() -> Seq<char> {
    "USD"@
}

/// The valuation of `portfolio` at `quotes` in US dollars with the rates `rates`, or
/// `None` where an amount overflows.
pub fn try_valuation(portfolio: &Portfolio, quotes: &QuoteMap, rates: &FxRates) -> (r: Option<
    PortfolioValuation,
>)
    ensures
        match r {
            None => evaluate_spec(portfolio@, quotes@, rates@, usd_code()) is None,
            Some(v) => evaluate_spec(portfolio@, quotes@, rates@, usd_code()) == Some(v@),
        },
{
    proof {
        reveal_strlit("USD");
    }
    let display = Currency::new("USD").unwrap();
    try_evaluate(portfolio, quotes, rates, display)
}

/// The valuation of `portfolio` at `quotes`: totals in US dollars, converted with the
/// snapshot `rates` of the live exchange rates.
pub fn valuation(portfolio: &Portfolio, quotes: &QuoteMap, rates: &FxRates) -> (r:
    PortfolioValuation)
    requires
        evaluate_spec(portfolio@, quotes@, rates@, usd_code()) is Some,
    ensures
        evaluate_spec(portfolio@, quotes@, rates@, usd_code()) == Some(r@),
{
    try_valuation(portfolio, quotes, rates).unwrap()
}

} // verus!
