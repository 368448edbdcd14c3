//! What a new quote sets off: every rule on the quote's symbol is evaluated against the
//! price, and each rule that fires yields a notification and a record of the firing.
//! The caller sends the notifications and records the firings, in order.
use crate::alert::{
    evaluate, outcome_of, threshold_of, AlertCondition, AlertError, AlertOutcome, AlertRule,
};
use crate::decimal::decimal_text;
use crate::money::Money;
use crate::ports::{
    alert_error_message, alert_error_text, notify_error_text, repo_error_text, NotifyError,
    RepoError,
};
use crate::quote::Quote;
use crate::time::Timestamp;
use vstd::prelude::*;
use vstd::string::StringExecFns;

verus! {

/// Why handling a quote's alerts failed.
#[derive(Debug)]
pub enum AlertServiceError {
    Repo(RepoError),
    Alert(AlertError),
    Notify(NotifyError),
}

/// The message of an alert-handling failure.
pub open spec fn alert_service_error_text(e: AlertServiceError) -> Seq<char> {
    match e {
        AlertServiceError::Repo(r) => "repo: "@ + repo_error_text(r),
        AlertServiceError::Alert(a) => "alert eval: "@ + alert_error_text(a),
        AlertServiceError::Notify(n) => "notify: "@ + notify_error_text(n),
    }
}

impl AlertServiceError {
    /// The message the error is shown with.
    pub fn message(&self) -> (r: String)
        ensures
            r@ == alert_service_error_text(*self),
    {
        let (prefix, inner) = match self {
            AlertServiceError::Repo(e) => ("repo: ", e.message()),
            AlertServiceError::Alert(e) => ("alert eval: ", alert_error_message(e)),
            AlertServiceError::Notify(e) => ("notify: ", e.message()),
        };
        let mut r = String::from_str(prefix);
        r.append(inner.as_str());
        r
    }
}

/// A notification to send for a rule that fired, and the rule to record as fired.
#[derive(Debug)]
pub struct FireNotice {
    pub rule_id: i64,
    pub title: String,
    pub body: String,
}

impl View for FireNotice {
    type V = (i64, Seq<char>, Seq<char>);

    open spec fn view(&self) -> (i64, Seq<char>, Seq<char>) {
        (self.rule_id, self.title@, self.body@)
    }
}

/// Does the rule fire at this price and time (same currency, enabled, crossed, not
/// cooling down)?
pub open spec fn fires(rule: AlertRule, price: Money, now: Timestamp) -> bool {
    threshold_of(rule.condition)@.1 == price@.1 && outcome_of(&rule, price, now)
        == AlertOutcome::Fire
}

/// `Alert · TICKER`.
pub open spec fn fire_title(ticker: Seq<char>) -> Seq<char> {
    "Alert \u{b7} "@ + ticker
}

/// `TICKER is at or above AMOUNT CCY`, or `below`.
pub open spec fn fire_body(rule: AlertRule) -> Seq<char> {
    match rule.condition {
        AlertCondition::Above(m) => rule.symbol@.1 + " is at or above "@ + decimal_text(m@.0)
            + " "@ + m@.1,
        AlertCondition::Below(m) => rule.symbol@.1 + " is at or below "@ + decimal_text(m@.0)
            + " "@ + m@.1,
    }
}

/// The notices for the rules that fire, in rule order, titled with `ticker`.
pub open spec fn fire_notices_spec(
    rules: Seq<AlertRule>,
    ticker: Seq<char>,
    price: Money,
    now: Timestamp,
) -> Seq<(i64, Seq<char>, Seq<char>)>
    decreases rules.len(),
{
    if rules.len() == 0 {
        Seq::empty()
    } else {
        let rest = fire_notices_spec(rules.drop_last(), ticker, price, now);
        let r = rules.last();
        if fires(r, price, now) {
            rest.push((r.id, fire_title(ticker), fire_body(r)))
        } else {
            rest
        }
    }
}

/// The body of the notification for a rule that fired.
pub fn describe_fire(rule: &AlertRule) -> (r: String)
    ensures
        r@ == fire_body(*rule),
{
    let (m, word) = match rule.condition {
        AlertCondition::Above(m) => (m, " is at or above "),
        AlertCondition::Below(m) => (m, " is at or below "),
    };
    let mut r = String::from_str(rule.symbol.ticker());
    r.append(word);
    let amount = m.amount().to_text();
    r.append(amount.as_str());
    r.append(" ");
    let c = m.currency();
    r.append(c.as_str());
    r
}

/// The notifications for `quote`: one per rule that fires at the quote's price at `now`,
/// in rule order, titled `Alert · TICKER` with the quote's ticker. Rules that do not
/// fire, or whose currency differs from the price's, yield nothing.
pub fn fire_notices(rules: &[AlertRule], quote: &Quote, now: Timestamp) -> (r: Vec<FireNotice>)
    ensures
        r@.map_values(|n: FireNotice| n@) == fire_notices_spec(
            rules@,
            quote.symbol@.1,
            quote.price.money(),
            now,
        ),
{
    let price = quote.price.money();
    let ghost ticker = quote.symbol@.1;
    let mut out: Vec<FireNotice> = Vec::new();
    let mut i: usize = 0;
    while i < rules.len()
        invariant
            i <= rules@.len(),
            price == quote.price.money(),
            ticker == quote.symbol@.1,
            out@.map_values(|n: FireNotice| n@) == fire_notices_spec(
                rules@.take(i as int),
                ticker,
                price,
                now,
            ),
        decreases rules@.len() - i,
    {
        let ghost before = out@.map_values(|n: FireNotice| n@);
        let rule = &rules[i];
        proof {
            assert(rules@.take(i + 1).drop_last() =~= rules@.take(i as int));
            assert(rules@.take(i + 1).last() == rules@[i as int]);
        }
        match evaluate(rule, price, now) {
            Ok(AlertOutcome::Fire) => {
                let mut title = String::from_str("Alert \u{b7} ");
                title.append(quote.symbol.ticker());
                let body = describe_fire(rule);
                out.push(FireNotice { rule_id: rule.id, title, body });
                proof {
                    assert(out@.map_values(|n: FireNotice| n@) =~= before.push(
                        (rule.id, fire_title(ticker), fire_body(*rule)),
                    ));
                }
            },
            _ => {},
        }
        i = i + 1;
    }
    proof {
        assert(rules@.take(i as int) =~= rules@);
    }
    out
}

} // verus!
