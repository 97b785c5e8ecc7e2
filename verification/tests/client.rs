use std::time::Duration;

use vuln_hound::llm::client::{
    accept_completion, authorization_value, chat_completions_url, extract_error_message,
    is_daily_quota_exceeded, models_outcome,
    models_url, parse_u64, reply_step, retry_after_from_body, retry_after_header_seconds,
    retry_after_millis_from_body, sort_model_ids, trim_trailing_slashes, LlmError, ReplyStep,
};
use vuln_hound::llm::types::{ChatCompletionResponse, ChatMessage, Choice};

#[test]
fn retry_after_from_body_parses_plain_seconds() {
    let body = r#"{"error":{"message":"try again in 2.7225s.","type":"tokens"}}"#;
    assert_eq!(retry_after_from_body(body), Some(Duration::from_millis(2722)));
}

#[test]
fn retry_after_from_body_parses_minutes_and_seconds() {
    let body = r#"{"error":{"message":"Please try again in 19m59.232s. Need more tokens?"}}"#;
    let parsed = retry_after_from_body(body).unwrap();
    assert_eq!(parsed, Duration::from_millis(30_000));
}

#[test]
fn retry_after_from_body_missing_phrase_returns_none() {
    let body = r#"{"error":{"message":"rate limited"}}"#;
    assert_eq!(retry_after_from_body(body), None);
}

#[test]
fn is_daily_quota_exceeded_detects_tpd() {
    let body = r#"{"error":{"message":"...on tokens per day (TPD): Limit 200000, Used 197747..."}}"#;
    assert!(is_daily_quota_exceeded(body));
}

#[test]
fn is_daily_quota_exceeded_ignores_per_minute_limits() {
    let body = r#"{"error":{"message":"Rate limit reached on tokens per minute (TPM)"}}"#;
    assert!(!is_daily_quota_exceeded(body));
}

#[test]
fn extract_error_message_pulls_message_field() {
    let body = r#"{"error":{"message":"quota exceeded","type":"tokens"}}"#;
    assert_eq!(extract_error_message(body), "quota exceeded");
}

#[test]
fn extract_error_message_falls_back_to_raw_body() {
    let body = "not json";
    assert_eq!(extract_error_message(body), "not json");
}

#[test]
fn extract_error_message_keeps_json_without_message() {
    let body = r#"{"error":{"code":7}}"#;
    assert_eq!(extract_error_message(body), body);
}

#[test]
fn retry_hint_edge_cases() {
    assert_eq!(retry_after_millis_from_body("try again in 0.1s"), Some(250));
    assert_eq!(retry_after_millis_from_body("try again in 1m"), None);
    assert_eq!(retry_after_millis_from_body("try again in 0m1s"), Some(1000));
    assert_eq!(retry_after_millis_from_body("try again in 0ms"), Some(250));
    assert_eq!(retry_after_millis_from_body("try again in 0.25m"), None);
    assert_eq!(retry_after_millis_from_body("try again in 0.25m0s"), Some(15_000));
    assert_eq!(retry_after_millis_from_body("try again in 0.0001m0.9999s"), Some(1005));
    assert_eq!(retry_after_millis_from_body("try again in .5s"), Some(500));
    assert_eq!(retry_after_millis_from_body("try again in 12.s"), Some(12_000));
    assert_eq!(retry_after_millis_from_body("try again in .s"), None);
    assert_eq!(retry_after_millis_from_body("try again in 1.2.3s"), None);
    assert_eq!(retry_after_millis_from_body("try again in 5 seconds"), None);
    assert_eq!(retry_after_millis_from_body("try again in \t 7s"), Some(7000));
    assert_eq!(retry_after_millis_from_body("try again in 7.77777s or try again in 1s"), Some(7777));
    assert_eq!(retry_after_millis_from_body("try again in 99999999999999999999999s"), Some(30_000));
}

#[test]
fn retry_after_header_parses_whole_seconds() {
    assert_eq!(retry_after_header_seconds("5"), Some(5));
    assert_eq!(retry_after_header_seconds("+5"), Some(5));
    assert_eq!(retry_after_header_seconds("0"), Some(1));
    assert_eq!(retry_after_header_seconds("120"), Some(30));
    assert_eq!(retry_after_header_seconds("1.5"), None);
    assert_eq!(retry_after_header_seconds(""), None);
    assert_eq!(retry_after_header_seconds("Wed, 21 Oct 2015 07:28:00 GMT"), None);
    assert_eq!(parse_u64("18446744073709551615"), Some(u64::MAX));
    assert_eq!(parse_u64("18446744073709551616"), None);
    assert_eq!(parse_u64("+"), None);
    assert_eq!(parse_u64("-1"), None);
}

#[test]
fn rate_limited_replies_are_retried_with_growing_floors() {
    assert_eq!(
        reply_step(0, 429, None, r#"{"error":{"message":"try again in 0.3s"}}"#),
        ReplyStep::Retry { wait_ms: 1000, next_attempt: 1 }
    );
    assert_eq!(reply_step(1, 429, None, "busy"), ReplyStep::Retry { wait_ms: 4000, next_attempt: 2 });
    assert_eq!(reply_step(2, 429, Some(3000), "busy"), ReplyStep::Retry { wait_ms: 10000, next_attempt: 3 });
    assert_eq!(reply_step(0, 429, Some(20000), "busy"), ReplyStep::Retry { wait_ms: 20000, next_attempt: 1 });
    assert_eq!(reply_step(0, 429, None, "busy"), ReplyStep::Retry { wait_ms: 2500, next_attempt: 1 });
    assert_eq!(
        reply_step(3, 429, None, "busy"),
        ReplyStep::Fail(LlmError::ProviderError { status: 429, body: "busy".into() })
    );
}

#[test]
fn daily_quota_is_not_retried() {
    let body = r#"{"error":{"message":"Limit on tokens per day reached"}}"#;
    assert_eq!(
        reply_step(0, 429, Some(1000), body),
        ReplyStep::Fail(LlmError::DailyQuotaExceeded("Limit on tokens per day reached".into()))
    );
}

#[test]
fn other_statuses_fail_or_are_accepted() {
    assert_eq!(reply_step(0, 200, None, ""), ReplyStep::Accept);
    assert_eq!(reply_step(0, 204, None, ""), ReplyStep::Accept);
    assert_eq!(
        reply_step(0, 500, None, "oops"),
        ReplyStep::Fail(LlmError::ProviderError { status: 500, body: "oops".into() })
    );
    assert_eq!(
        reply_step(0, 301, None, ""),
        ReplyStep::Fail(LlmError::ProviderError { status: 301, body: "".into() })
    );
}

#[test]
fn completion_without_choices_is_an_error() {
    assert_eq!(
        accept_completion(ChatCompletionResponse { choices: vec![] }).unwrap_err(),
        LlmError::EmptyResponse
    );
    let ok = accept_completion(ChatCompletionResponse {
        choices: vec![Choice { message: ChatMessage::user("hi".into()) }],
    })
    .unwrap();
    assert_eq!(ok.choices.len(), 1);
}

#[test]
fn llm_error_messages() {
    assert_eq!(LlmError::Request("timeout".into()).message(), "request failed: timeout");
    assert_eq!(
        LlmError::ProviderError { status: 503, body: "down".into() }.message(),
        "provider returned an error (503): down"
    );
    assert_eq!(LlmError::EmptyResponse.message(), "provider returned no choices");
    assert_eq!(LlmError::DailyQuotaExceeded("quota".into()).message(), "quota");
}

#[test]
fn endpoint_urls() {
    assert_eq!(trim_trailing_slashes("http://x/v1///"), "http://x/v1");
    assert_eq!(trim_trailing_slashes("///"), "");
    assert_eq!(models_url("https://api.groq.com/openai/v1/"), "https://api.groq.com/openai/v1/models");
    assert_eq!(chat_completions_url("http://localhost:1234/v1"), "http://localhost:1234/v1/chat/completions");
}

#[test]
fn model_ids_are_sorted() {
    let ids = vec!["llama".to_string(), "Zeta".into(), "alpha".into(), "llama".into(), "é".into(), "".into()];
    let mut expected = ids.clone();
    expected.sort();
    assert_eq!(sort_model_ids(ids), expected);
}

#[test]
fn requests_carry_a_bearer_key_only_when_there_is_one() {
    assert_eq!(authorization_value(Some("gsk_1")), Some("Bearer gsk_1".to_string()));
    assert_eq!(authorization_value(None), None);
}

#[test]
fn model_listing_outcomes() {
    assert_eq!(
        models_outcome(401, "bad key".into(), Err("unused".into())),
        Err(LlmError::ProviderError { status: 401, body: "bad key".into() })
    );
    assert_eq!(
        models_outcome(200, "{}".into(), Err("missing field `data`".into())),
        Err(LlmError::Request("missing field `data`".into()))
    );
    assert_eq!(
        models_outcome(200, "".into(), Ok(vec!["b".into(), "a".into(), "b".into()])),
        Ok(vec!["a".to_string(), "b".to_string(), "b".to_string()])
    );
}
