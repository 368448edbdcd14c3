//! The pieces of an AI commentary turn that are not I/O: the name under which a
//! provider's key is stored, the indicator values quoted to the model, and the request
//! sent to it.
use crate::conversation::{message_views, Message, Role};
use crate::indicator_service::IndicatorSnapshot;
use crate::ports::{ai_error_text, secret_error_text, AiError, AiRequest, SecretError};
use crate::prompt::IndicatorContext;
use vstd::prelude::*;
use vstd::string::StringExecFns;

verus! {

/// Why a commentary could not be started.
#[derive(Debug)]
pub enum AiServiceError {
    Secret(SecretError),
    Ai(AiError),
    NotConfigured(String),
}

/// The message of a commentary failure.
pub open spec fn ai_service_error_text(e: AiServiceError) -> Seq<char> {
    match e {
        AiServiceError::Secret(s) => "secret: "@ + secret_error_text(s),
        AiServiceError::Ai(a) => "ai: "@ + ai_error_text(a),
        AiServiceError::NotConfigured(p) => "provider not configured: "@ + p@,
    }
}

impl AiServiceError {
    /// The message the error is shown with.
    pub fn message(&self) -> (r: String)
        ensures
            r@ == ai_service_error_text(*self),
    {
        let (prefix, inner) = match self {
            AiServiceError::Secret(e) => ("secret: ", e.message()),
            AiServiceError::Ai(e) => ("ai: ", e.message()),
            AiServiceError::NotConfigured(p) => ("provider not configured: ", p.clone()),
        };
        let mut r = String::from_str(prefix);
        r.append(inner.as_str());
        r
    }
}

/// The secret-store key of a provider's API key: `PROVIDER_api_key`.
pub fn api_key_name(provider: &str) -> (r: String)
    ensures
        r@ == provider@ + "_api_key"@,
{
    let mut r = String::from_str(provider);
    r.append("_api_key");
    r
}

/// The indicator values a commentary quotes: RSI, MACD with its signal, and the two
/// moving averages of the snapshot.
pub fn indicator_context(snap: &IndicatorSnapshot) -> (r: IndicatorContext)
    ensures
        r.rsi_14 == snap.rsi_14,
        r.macd == snap.macd,
        r.macd_signal == snap.macd_signal,
        r.sma_20 == snap.sma_20,
        r.sma_50 == snap.sma_50,
{
    IndicatorContext {
        rsi_14: snap.rsi_14,
        macd: snap.macd,
        macd_signal: snap.macd_signal,
        sma_20: snap.sma_20,
        sma_50: snap.sma_50,
    }
}

/// The request that opens a commentary: the system prompt, the user message as the only
/// turn, and a cap of 600 output tokens.
pub fn commentary_request(system: String, user: &str) -> (r: AiRequest)
    ensures
        r.system@ == system@,
        message_views(r.messages@) == seq![(Role::User, user@)],
        r.max_output_tokens == 600,
{
    let mut messages: Vec<Message> = Vec::new();
    messages.push(Message::user(user));
    proof {
        assert(message_views(messages@) =~= seq![(Role::User, user@)]);
    }
    AiRequest { system, messages, max_output_tokens: 600 }
}

} // verus!
