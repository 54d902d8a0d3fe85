//! Which model provider to call next.
//!
//! Every request first goes to the primary Gemini key; a transient failure
//! (rate limit, overload) moves on to the secondary key, and a transient
//! failure there moves on to OpenRouter when a key for it is configured. A
//! failure that is not transient is returned at once.
use vstd::prelude::*;
use crate::text::{chars_of, contains_chars, contains_seq};

verus! {

/// A provider that a request can be sent to.
#[derive(Debug, Clone, Copy, PartialEq, Eq)]
pub enum Provider {
    GeminiPrimary,
    GeminiSecondary,
    OpenRouter,
}

/// How a provider call ended.
#[derive(Debug, Clone, Copy, PartialEq, Eq)]
pub enum CallOutcome {
    Succeeded,
    /// A transient failure worth retrying elsewhere.
    RetryableFailure,
    /// Any other failure.
    Failed,
}

/// What to do after a call.
#[derive(Debug, Clone, Copy, PartialEq, Eq)]
pub enum FallbackStep {
    /// Send the request to this provider.
    Call(Provider),
    /// Return this provider's answer.
    ReturnAnswer(Provider),
    /// Return this provider's error.
    ReturnError(Provider),
    /// Every provider failed transiently; report that.
    AllProvidersFailed,
}

/// The fallback rules of one kind of request.
#[derive(Debug, Clone, Copy, PartialEq, Eq)]
pub struct FallbackPolicy {
    /// An OpenRouter key is configured.
    pub openrouter_configured: bool,
    /// This kind of request may fall back to OpenRouter (the word-fill step
    /// may not, and returns the secondary key's error instead).
    pub openrouter_fallback: bool,
}

/// The first step of every request: the primary Gemini key.
pub open spec fn first_step() -> FallbackStep {
    FallbackStep::Call(Provider::GeminiPrimary)
}

/// The step after `provider` answered with `outcome`.
pub open spec fn next_step_spec(policy: FallbackPolicy, provider: Provider, outcome: CallOutcome) -> FallbackStep {
    match outcome {
        CallOutcome::Succeeded => FallbackStep::ReturnAnswer(provider),
        CallOutcome::Failed => FallbackStep::ReturnError(provider),
        CallOutcome::RetryableFailure => match provider {
            Provider::GeminiPrimary => FallbackStep::Call(Provider::GeminiSecondary),
            Provider::GeminiSecondary => if !policy.openrouter_fallback {
                FallbackStep::ReturnError(Provider::GeminiSecondary)
            } else if policy.openrouter_configured {
                FallbackStep::Call(Provider::OpenRouter)
            } else {
                FallbackStep::AllProvidersFailed
            },
            Provider::OpenRouter => FallbackStep::ReturnError(Provider::OpenRouter),
        },
    }
}

/// The first provider to call.
pub fn start() -> (r: FallbackStep)
    ensures
        r == first_step(),
{
    FallbackStep::Call(Provider::GeminiPrimary)
}

/// Decides what follows a call to `provider` that ended with `outcome`.
pub fn next_step(policy: FallbackPolicy, provider: Provider, outcome: CallOutcome) -> (r: FallbackStep)
    ensures
        r == next_step_spec(policy, provider, outcome),
{
    match outcome {
        CallOutcome::Succeeded => FallbackStep::ReturnAnswer(provider),
        CallOutcome::Failed => FallbackStep::ReturnError(provider),
        CallOutcome::RetryableFailure => match provider {
            Provider::GeminiPrimary => FallbackStep::Call(Provider::GeminiSecondary),
            Provider::GeminiSecondary => {
                if !policy.openrouter_fallback {
                    FallbackStep::ReturnError(Provider::GeminiSecondary)
                } else if policy.openrouter_configured {
                    FallbackStep::Call(Provider::OpenRouter)
                } else {
                    FallbackStep::AllProvidersFailed
                }
            },
            Provider::OpenRouter => FallbackStep::ReturnError(Provider::OpenRouter),
        },
    }
}

/// The position of a provider in the fallback order.
pub open spec fn rank(p: Provider) -> int {
    match p {
        Provider::GeminiPrimary => 0,
        Provider::GeminiSecondary => 1,
        Provider::OpenRouter => 2,
    }
}

/// Providers are tried in order, each at most once, so a request makes at
/// most three calls; a success or a non-transient failure ends the request
/// with that provider's answer or error; OpenRouter is only called when it is
/// configured and allowed.
pub proof fn law_fallback_order(policy: FallbackPolicy, p: Provider, o: CallOutcome)
    ensures
        next_step_spec(policy, p, o) matches FallbackStep::Call(q) ==> rank(q) == rank(p) + 1
            && o == CallOutcome::RetryableFailure,
        next_step_spec(policy, p, o) matches FallbackStep::Call(q) ==> (q == Provider::OpenRouter
            ==> policy.openrouter_configured && policy.openrouter_fallback),
        o == CallOutcome::Succeeded ==> next_step_spec(policy, p, o) == FallbackStep::ReturnAnswer(p),
        o == CallOutcome::Failed ==> next_step_spec(policy, p, o) == FallbackStep::ReturnError(p),
        p == Provider::OpenRouter ==> !(next_step_spec(policy, p, o) is Call),
{
}

/// A transient failure moves on along the chain whatever the policy: the
/// primary key is always followed by the secondary key (the OpenRouter
/// settings matter only after the secondary key); after the secondary key,
/// OpenRouter is called exactly when it is allowed and configured, the
/// secondary key's error is returned exactly when OpenRouter is not allowed,
/// and "all providers failed" is reported exactly when it is allowed but not
/// configured.
pub proof fn law_transient_failure_moves_on(policy: FallbackPolicy)
    ensures
        next_step_spec(policy, Provider::GeminiPrimary, CallOutcome::RetryableFailure)
            == FallbackStep::Call(Provider::GeminiSecondary),
        next_step_spec(policy, Provider::GeminiSecondary, CallOutcome::RetryableFailure)
            == FallbackStep::Call(Provider::OpenRouter) <==> policy.openrouter_fallback
            && policy.openrouter_configured,
        next_step_spec(policy, Provider::GeminiSecondary, CallOutcome::RetryableFailure)
            == FallbackStep::ReturnError(Provider::GeminiSecondary) <==> !policy.openrouter_fallback,
        next_step_spec(policy, Provider::GeminiSecondary, CallOutcome::RetryableFailure)
            == FallbackStep::AllProvidersFailed <==> policy.openrouter_fallback
            && !policy.openrouter_configured,
{
}

/// Lower-case form of a string, as `str::to_lowercase` computes it.
pub uninterp spec fn lowercase(s: Seq<char>) -> Seq<char>;

/// The lower-case form of `s`.
///
/// Trusted: calls `str::to_lowercase`, whose result depends on `s` alone
/// (Unicode lower-case mapping); the contract only names that result.
#[verifier::external_body]
pub(crate) fn to_lowercase(s: &str) -> (r: String)
    ensures
        r@ == lowercase(s@),
{
    s.to_lowercase()
}

/// The message of a transient failure mentions one of these (in lower case).
pub open spec fn mentions_transient(msg: Seq<char>) -> bool {
    ||| contains_seq(msg, "429"@)
    ||| contains_seq(msg, "rate limit"@)
    ||| contains_seq(msg, "resource_exhausted"@)
    ||| contains_seq(msg, "503"@)
    ||| contains_seq(msg, "unavailable"@)
    ||| contains_seq(msg, "high demand"@)
}

fn mentions(msg: &Vec<char>, needle: &str) -> (r: bool)
    ensures
        r == contains_seq(msg@, needle@),
{
    let n = chars_of(needle);
    contains_chars(msg.as_slice(), n.as_slice())
}

/// Whether an error message, already in lower case, mentions a transient
/// failure.
pub fn is_transient_message(lower: &str) -> (r: bool)
    ensures
        r == mentions_transient(lower@),
{
    let msg = chars_of(lower);
    mentions(&msg, "429") || mentions(&msg, "rate limit") || mentions(&msg, "resource_exhausted")
        || mentions(&msg, "503") || mentions(&msg, "unavailable") || mentions(&msg, "high demand")
}

/// Whether a Gemini failure is worth retrying with another provider: its
/// message (in lower case) mentions a rate limit, exhaustion, a 429 or 503
/// status, unavailability or high demand, or its status is "unavailable".
pub fn is_retryable(message: &str, status_unavailable: bool) -> (r: bool)
    ensures
        r == (mentions_transient(lowercase(message@)) || status_unavailable),
{
    let lower = to_lowercase(message);
    is_transient_message(lower.as_str()) || status_unavailable
}

/// The outcome of a Gemini call that failed.
pub fn classify_failure(message: &str, status_unavailable: bool) -> (r: CallOutcome)
    ensures
        r == if mentions_transient(lowercase(message@)) || status_unavailable {
            CallOutcome::RetryableFailure
        } else {
            CallOutcome::Failed
        },
{
    if is_retryable(message, status_unavailable) {
        CallOutcome::RetryableFailure
    } else {
        CallOutcome::Failed
    }
}

} // verus!
