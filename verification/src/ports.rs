//! What the services exchange with the outside world: requests and replies of the
//! AI, HTTP and market-data providers, and the errors each of them reports, with the
//! message each error is shown with.
use crate::alert::AlertError;
use crate::conversation::Message;
use crate::text::{nat_text, push_u64_text};
use std::collections::HashMap;
use vstd::prelude::*;
use vstd::string::StringExecFns;

verus! {

/// A multi-turn request to an AI provider: a system prompt and the ordered history.
#[derive(Debug, Clone)]
pub struct AiRequest {
    pub system: String,
    pub messages: Vec<Message>,
    pub max_output_tokens: u32,
}

/// One piece of a streamed AI reply.
#[derive(Debug, Clone)]
pub enum AiChunk {
    Text(String),
    Done,
}

/// A failure of an AI provider.
#[derive(Debug)]
pub enum AiError {
    NotConfigured,
    Unauthorized,
    RateLimited { retry_after_secs: u64 },
    Upstream(String),
    Parse(String),
    Network(String),
}

/// A failure of a market-data provider.
#[derive(Debug)]
pub enum ProviderError {
    UnsupportedSymbol(String),
    RateLimited { retry_after_secs: u64 },
    Upstream(String),
    Parse(String),
    Network(String),
}

/// A reply to an HTTP request.
#[derive(Debug, Clone)]
pub struct HttpResponse {
    pub status: u16,
    pub headers: HashMap<String, String>,
    pub body: Vec<u8>,
}

/// A failure of an HTTP request.
#[derive(Debug)]
pub enum HttpError {
    Network(String),
    Timeout(std::time::Duration),
    InvalidUrl(String),
}

/// A failure of a news provider.
#[derive(Debug)]
pub enum NewsError {
    Upstream(String),
    Parse(String),
}

/// A failure to show a notification.
#[derive(Debug)]
pub enum NotifyError {
    PermissionDenied,
    Backend(String),
}

/// A failure of a repository.
#[derive(Debug)]
pub enum RepoError {
    Storage(String),
    NotFound,
}

/// A failure of the secret store.
#[derive(Debug)]
pub enum SecretError {
    NotFound(String),
    Backend(String),
}

/// `rate limited; retry after N seconds`.
pub open spec fn rate_limited_text(secs: u64) -> Seq<char> {
    "rate limited; retry after "@ + nat_text(secs as nat) + " seconds"@
}

/// The message of an AI provider failure.
pub open spec fn ai_error_text(e: AiError) -> Seq<char> {
    match e {
        AiError::NotConfigured => "not configured (no api key)"@,
        AiError::Unauthorized => "unauthorized \u{2014} invalid api key"@,
        AiError::RateLimited { retry_after_secs } => rate_limited_text(retry_after_secs),
        AiError::Upstream(s) => "upstream error: "@ + s@,
        AiError::Parse(s) => "parse error: "@ + s@,
        AiError::Network(s) => "network error: "@ + s@,
    }
}

/// The message of a market-data provider failure.
pub open spec fn provider_error_text(e: ProviderError) -> Seq<char> {
    match e {
        ProviderError::UnsupportedSymbol(s) => "symbol not supported by this provider: "@ + s@,
        ProviderError::RateLimited { retry_after_secs } => rate_limited_text(retry_after_secs),
        ProviderError::Upstream(s) => "upstream error: "@ + s@,
        ProviderError::Parse(s) => "parse error: "@ + s@,
        ProviderError::Network(s) => "network error: "@ + s@,
    }
}

/// The message of a news provider failure.
pub open spec fn news_error_text(e: NewsError) -> Seq<char> {
    match e {
        NewsError::Upstream(s) => "upstream error: "@ + s@,
        NewsError::Parse(s) => "parse error: "@ + s@,
    }
}

/// The message of a notification failure.
pub open spec fn notify_error_text(e: NotifyError) -> Seq<char> {
    match e {
        NotifyError::PermissionDenied => "permission denied"@,
        NotifyError::Backend(s) => "backend error: "@ + s@,
    }
}

/// The message of a repository failure.
pub open spec fn repo_error_text(e: RepoError) -> Seq<char> {
    match e {
        RepoError::Storage(s) => "storage error: "@ + s@,
        RepoError::NotFound => "not found"@,
    }
}

/// The message of a secret store failure.
pub open spec fn secret_error_text(e: SecretError) -> Seq<char> {
    match e {
        SecretError::NotFound(s) => "not found: "@ + s@,
        SecretError::Backend(s) => "backend error: "@ + s@,
    }
}

/// The message of an alert evaluation failure.
pub open spec fn alert_error_text(e: AlertError) -> Seq<char> {
    match e {
        AlertError::CurrencyMismatch(a, b) => "currency mismatch: rule "@ + a@ + " vs price "@ + b@,
    }
}

/// `prefix` followed by `s`.
fn text_with(prefix: &str, s: &str) -> (r: String)
    ensures
        r@ == prefix@ + s@,
{
    let mut r = String::from_str(prefix);
    r.append(s);
    r
}

/// `rate limited; retry after N seconds`.
fn rate_limited_message(secs: u64) -> (r: String)
    ensures
        r@ == rate_limited_text(secs),
{
    let mut r = String::from_str("rate limited; retry after ");
    push_u64_text(&mut r, secs);
    r.append(" seconds");
    r
}

impl AiError {
    /// The message the error is shown with.
    pub fn message(&self) -> (r: String)
        ensures
            r@ == ai_error_text(*self),
    {
        match self {
            AiError::NotConfigured => String::from_str("not configured (no api key)"),
            AiError::Unauthorized => String::from_str("unauthorized \u{2014} invalid api key"),
            AiError::RateLimited { retry_after_secs } => rate_limited_message(*retry_after_secs),
            AiError::Upstream(s) => text_with("upstream error: ", s.as_str()),
            AiError::Parse(s) => text_with("parse error: ", s.as_str()),
            AiError::Network(s) => text_with("network error: ", s.as_str()),
        }
    }
}

impl ProviderError {
    /// The message the error is shown with.
    pub fn message(&self) -> (r: String)
        ensures
            r@ == provider_error_text(*self),
    {
        match self {
            ProviderError::UnsupportedSymbol(s) => text_with(
                "symbol not supported by this provider: ",
                s.as_str(),
            ),
            ProviderError::RateLimited { retry_after_secs } => rate_limited_message(
                *retry_after_secs,
            ),
            ProviderError::Upstream(s) => text_with("upstream error: ", s.as_str()),
            ProviderError::Parse(s) => text_with("parse error: ", s.as_str()),
            ProviderError::Network(s) => text_with("network error: ", s.as_str()),
        }
    }
}

impl NewsError {
    /// The message the error is shown with.
    pub fn message(&self) -> (r: String)
        ensures
            r@ == news_error_text(*self),
    {
        match self {
            NewsError::Upstream(s) => text_with("upstream error: ", s.as_str()),
            NewsError::Parse(s) => text_with("parse error: ", s.as_str()),
        }
    }
}

impl NotifyError {
    /// The message the error is shown with.
    pub fn message(&self) -> (r: String)
        ensures
            r@ == notify_error_text(*self),
    {
        match self {
            NotifyError::PermissionDenied => String::from_str("permission denied"),
            NotifyError::Backend(s) => text_with("backend error: ", s.as_str()),
        }
    }
}

impl RepoError {
    /// The message the error is shown with.
    pub fn message(&self) -> (r: String)
        ensures
            r@ == repo_error_text(*self),
    {
        match self {
            RepoError::Storage(s) => text_with("storage error: ", s.as_str()),
            RepoError::NotFound => String::from_str("not found"),
        }
    }
}

impl SecretError {
    /// The message the error is shown with.
    pub fn message(&self) -> (r: String)
        ensures
            r@ == secret_error_text(*self),
    {
        match self {
            SecretError::NotFound(s) => text_with("not found: ", s.as_str()),
            SecretError::Backend(s) => text_with("backend error: ", s.as_str()),
        }
    }
}

/// The message of an alert evaluation failure.
pub fn alert_error_message(e: &AlertError) -> (r: String)
    ensures
        r@ == alert_error_text(*e),
{
    match e {
        AlertError::CurrencyMismatch(a, b) => {
            let mut r = text_with("currency mismatch: rule ", a.as_str());
            r.append(" vs price ");
            r.append(b.as_str());
            r
        },
    }
}

} // verus!
