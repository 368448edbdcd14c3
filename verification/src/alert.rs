//! Price alert rules and their evaluation.
use crate::decimal::frac_lt;
use crate::money::Money;
use crate::symbol::Symbol;
use crate::time::{nanos_per_sec, Timestamp};
use vstd::prelude::*;

verus! {

/// When an alert triggers.
#[derive(Debug, Clone, Copy)]
pub enum AlertCondition {
    /// The price is at or above the amount.
    Above(Money),
    /// The price is at or below the amount.
    Below(Money),
}

/// An alert on one symbol.
#[derive(Debug)]
pub struct AlertRule {
    pub id: i64,
    pub symbol: Symbol,
    pub condition: AlertCondition,
    pub enabled: bool,
    pub cooldown_secs: u32,
    pub last_fired_at: Option<Timestamp>,
}

/// Why a rule could not be evaluated.
#[derive(Debug, PartialEq, Eq)]
pub enum AlertError {
    /// The rule's amount and the price are in different currencies.
    CurrencyMismatch(String, String),
}

/// What a rule says about a price.
#[derive(Debug, Clone, Copy, PartialEq, Eq, Structural)]
pub enum AlertOutcome {
    NotTriggered,
    OnCooldown,
    Fire,
}

/// The amount a condition compares against.
pub open spec fn threshold_of(c: AlertCondition) -> Money {
    match c {
        AlertCondition::Above(m) => m,
        AlertCondition::Below(m) => m,
    }
}

/// Has the price crossed the condition's threshold?
pub open spec fn crossed(c: AlertCondition, price: Money) -> bool {
    match c {
        AlertCondition::Above(m) => !frac_lt(price@.0, m@.0),
        AlertCondition::Below(m) => !frac_lt(m@.0, price@.0),
    }
}

/// Was the rule fired less than its cooldown before `now`?
pub open spec fn cooling_down(rule: &AlertRule, now: Timestamp) -> bool {
    match rule.last_fired_at {
        Some(last) => now@ - last@ < rule.cooldown_secs * nanos_per_sec(),
        None => false,
    }
}

/// The outcome of a rule with matching currencies.
pub open spec fn outcome_of(rule: &AlertRule, price: Money, now: Timestamp) -> AlertOutcome {
    if !rule.enabled || !crossed(rule.condition, price) {
        AlertOutcome::NotTriggered
    } else if cooling_down(rule, now) {
        AlertOutcome::OnCooldown
    } else {
        AlertOutcome::Fire
    }
}

/// Evaluates `rule` against `price` at `now`. A disabled rule never triggers; then the
/// currencies must match; then a rule whose threshold is not crossed does not trigger;
/// a crossed rule fired less than its cooldown ago is on cooldown; otherwise it fires.
pub fn evaluate(rule: &AlertRule, price: Money, now: Timestamp) -> (r: Result<
    AlertOutcome,
    AlertError,
>)
    ensures
        r is Err <==> rule.enabled && threshold_of(rule.condition)@.1 != price@.1,
        r matches Ok(o) ==> o == outcome_of(rule, price, now),
        r matches Err(AlertError::CurrencyMismatch(a, b)) ==> a@ == threshold_of(
            rule.condition,
        )@.1 && b@ == price@.1,
{
    if !rule.enabled {
        return Ok(AlertOutcome::NotTriggered);
    }
    let threshold = match rule.condition {
        AlertCondition::Above(m) => m,
        AlertCondition::Below(m) => m,
    };
    if threshold.currency() != price.currency() {
        return Err(
            AlertError::CurrencyMismatch(
                threshold.currency().as_str().to_string(),
                price.currency().as_str().to_string(),
            ),
        );
    }
    let is_crossed = match rule.condition {
        AlertCondition::Above(m) => !price.amount().lt(&m.amount()),
        AlertCondition::Below(m) => !m.amount().lt(&price.amount()),
    };
    if !is_crossed {
        return Ok(AlertOutcome::NotTriggered);
    }
    match rule.last_fired_at {
        Some(last) => {
            if now.within_secs_of(&last, rule.cooldown_secs) {
                return Ok(AlertOutcome::OnCooldown);
            }
        },
        None => {},
    }
    Ok(AlertOutcome::Fire)
}

/// A disabled rule never fires, whatever the price and the time.
pub proof fn lemma_disabled_never_fires(rule: &AlertRule, price: Money, now: Timestamp)
    requires
        !rule.enabled,
    ensures
        outcome_of(rule, price, now) == AlertOutcome::NotTriggered,
{
}

/// A rule fires only when its threshold is crossed and it is not cooling down.
pub proof fn lemma_fire_needs_cross_and_no_cooldown(
    rule: &AlertRule,
    price: Money,
    now: Timestamp,
)
    requires
        outcome_of(rule, price, now) == AlertOutcome::Fire,
    ensures
        rule.enabled,
        crossed(rule.condition, price),
        !cooling_down(rule, now),
{
}

} // verus!
