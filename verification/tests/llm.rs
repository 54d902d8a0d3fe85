use transcriber_api::llm::common::Model;
use transcriber_api::llm::openrouter::{
    SseLine, audio_format_from_mime, interpret_sse_line, split_first_line, sse_line_of_content,
};
use transcriber_api::llm::provider::{
    CallOutcome, FallbackPolicy, FallbackStep, Provider, classify_failure, is_retryable,
    is_transient_message, next_step, start,
};

const FULL: FallbackPolicy = FallbackPolicy { openrouter_configured: true, openrouter_fallback: true };
const NO_KEY: FallbackPolicy = FallbackPolicy { openrouter_configured: false, openrouter_fallback: true };
const NO_FALLBACK: FallbackPolicy =
    FallbackPolicy { openrouter_configured: true, openrouter_fallback: false };

#[test]
fn model_names() {
    assert_eq!(Model::TranscriptionModel.as_str(), "gemini-3-flash-preview");
    assert_eq!(Model::TranslationModel.as_str(), "gemini-3.1-flash-lite");
    assert_eq!(Model::SummaryModel.as_str(), "gemini-3.1-flash-lite");
    assert_eq!(Model::StitchModel.as_str(), "gemini-3.1-flash-lite");
}

#[test]
fn fallback_walks_primary_secondary_openrouter() {
    assert_eq!(start(), FallbackStep::Call(Provider::GeminiPrimary));
    let retry = CallOutcome::RetryableFailure;
    assert_eq!(next_step(FULL, Provider::GeminiPrimary, retry), FallbackStep::Call(Provider::GeminiSecondary));
    assert_eq!(next_step(FULL, Provider::GeminiSecondary, retry), FallbackStep::Call(Provider::OpenRouter));
    assert_eq!(next_step(FULL, Provider::OpenRouter, retry), FallbackStep::ReturnError(Provider::OpenRouter));
}

#[test]
fn fallback_without_openrouter_key() {
    let retry = CallOutcome::RetryableFailure;
    assert_eq!(next_step(NO_KEY, Provider::GeminiSecondary, retry), FallbackStep::AllProvidersFailed);
    assert_eq!(
        next_step(NO_FALLBACK, Provider::GeminiSecondary, retry),
        FallbackStep::ReturnError(Provider::GeminiSecondary)
    );
}

#[test]
fn success_and_hard_failure_end_the_request() {
    for p in [Provider::GeminiPrimary, Provider::GeminiSecondary, Provider::OpenRouter] {
        for policy in [FULL, NO_KEY, NO_FALLBACK] {
            assert_eq!(next_step(policy, p, CallOutcome::Succeeded), FallbackStep::ReturnAnswer(p));
            assert_eq!(next_step(policy, p, CallOutcome::Failed), FallbackStep::ReturnError(p));
        }
    }
}

#[test]
fn a_request_makes_at_most_three_calls() {
    for policy in [FULL, NO_KEY, NO_FALLBACK] {
        let mut step = start();
        let mut calls = 0;
        while let FallbackStep::Call(p) = step {
            calls += 1;
            step = next_step(policy, p, CallOutcome::RetryableFailure);
        }
        assert!(calls <= 3);
    }
}

#[test]
fn transient_messages_are_retryable() {
    assert!(is_retryable("HTTP 429 Too Many Requests", false));
    assert!(is_retryable("Rate Limit exceeded", false));
    assert!(is_retryable("RESOURCE_EXHAUSTED", false));
    assert!(is_retryable("503 Service Unavailable", false));
    assert!(is_retryable("The model is experiencing High Demand", false));
    assert!(!is_retryable("invalid argument", false));
    assert!(is_retryable("invalid argument", true));
}

#[test]
fn transient_check_on_lower_case_text() {
    assert!(is_transient_message("rate limit"));
    assert!(!is_transient_message("Rate Limit"));
    assert!(is_transient_message("server unavailable"));
    assert!(!is_transient_message(""));
}

#[test]
fn retry_check_ignores_case() {
    assert!(is_retryable("ReSoUrCe_EXHAUSTED", false));
    assert!(is_retryable("SERVICE UNAVAILABLE", false));
    assert!(!is_transient_message("SERVICE UNAVAILABLE"));
}

#[test]
fn classify_failures() {
    assert_eq!(classify_failure("quota: Rate limit", false), CallOutcome::RetryableFailure);
    assert_eq!(classify_failure("bad request", false), CallOutcome::Failed);
    assert_eq!(classify_failure("bad request", true), CallOutcome::RetryableFailure);
}

#[test]
fn audio_format_from_mime_types() {
    assert_eq!(audio_format_from_mime("audio/mpeg"), "mpeg");
    assert_eq!(audio_format_from_mime("audio/ogg; codecs=opus"), "ogg");
    assert_eq!(audio_format_from_mime("audio/webm"), "webm");
    assert_eq!(audio_format_from_mime("mp3"), "wav");
    assert_eq!(audio_format_from_mime("a/b/c"), "b");
    assert_eq!(audio_format_from_mime("audio/"), "");
}

#[test]
fn first_line_of_stream_buffer() {
    assert_eq!(split_first_line("no newline yet"), None);
    assert_eq!(
        split_first_line("data: x\r\nrest\n"),
        Some(("data: x".to_string(), "rest\n".to_string()))
    );
    assert_eq!(split_first_line("\n"), Some((String::new(), String::new())));
    assert_eq!(split_first_line("a\r\r\nb"), Some(("a".to_string(), "b".to_string())));
}

#[test]
fn sse_lines() {
    assert_eq!(interpret_sse_line("data: [DONE]"), SseLine::Done);
    assert_eq!(interpret_sse_line(": keep-alive"), SseLine::Skip);
    assert_eq!(interpret_sse_line("event: message"), SseLine::Skip);
    assert_eq!(
        interpret_sse_line(r#"data: {"choices":[{"delta":{"content":"Hello"}}]}"#),
        SseLine::Text("Hello".to_string())
    );
    assert_eq!(interpret_sse_line(r#"data: {"choices":[{"delta":{"content":""}}]}"#), SseLine::Skip);
    assert_eq!(interpret_sse_line(r#"data: {"choices":[{"delta":{}}]}"#), SseLine::Skip);
    assert_eq!(interpret_sse_line("data: not json"), SseLine::Skip);
    assert_eq!(interpret_sse_line("data:[DONE]"), SseLine::Skip);
}

#[test]
fn sse_line_from_delta_content() {
    assert_eq!(sse_line_of_content(Some("x".to_string())), SseLine::Text("x".to_string()));
    assert_eq!(sse_line_of_content(Some(String::new())), SseLine::Skip);
    assert_eq!(sse_line_of_content(None), SseLine::Skip);
}
