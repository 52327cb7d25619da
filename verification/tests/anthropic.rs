use preflight::json::Json;
use preflight::model::{
    MiniPrompt, PermissionPromptSpec, TokenUsage, ValidatorContextMap,
};
use preflight::providers::anthropic::failures::{
    api_error_message, classify_request_failure, classify_stream_error_event,
    is_account_level_failure, mentions_account_level_problem, parse_retry_after,
    retry_after_seconds,
};
use preflight::providers::anthropic::payload::{
    build_anthropic_payload_variants, normalize_anthropic_message_content, thinking_support,
    ThinkingSupport, ADAPTIVE_THINKING_MAX_TOKENS, ADAPTIVE_THINKING_NON_STREAM_MAX_TOKENS,
    DEFAULT_MAX_TOKENS, THINKING_BUDGET_TOKENS, THINKING_MAX_TOKENS,
};
use preflight::providers::anthropic::replies::{
    empty_output_failure, extract_anthropic_content_delta, extract_anthropic_non_stream_content,
    extract_anthropic_non_stream_reasoning, extract_anthropic_reasoning_delta,
    extract_anthropic_reasoning_index, extract_anthropic_response_usage, non_stream_attempt,
    update_anthropic_usage_from_event,
};
use preflight::providers::anthropic::stream::MessageStream;
use preflight::providers::anthropic::AnthropicProvider;
use preflight::providers::attempts::{AttemptFailure, FailureKind, Verdict};
use preflight::wire;

fn parsed(text: &str) -> Json {
    wire::parse(text).expect("valid JSON")
}

fn sample_messages() -> Vec<Json> {
    vec![parsed(r#"{"role": "user", "content": "hello"}"#)]
}

fn at<'a>(value: &'a Json, index: usize) -> &'a Json {
    &value.as_array().expect("an array")[index]
}

#[test]
fn payload_variants_without_reasoning_effort_still_lead_with_adaptive_thinking() {
    let messages = sample_messages();
    let variants =
        build_anthropic_payload_variants("anthropic-sonnet-4-6", "system", &messages, false, None);

    assert_eq!(variants.len(), 3);

    let first = &variants[0];
    assert_eq!(first.get_str("model"), Some("anthropic-sonnet-4-6"));
    assert_eq!(first.get_u64("max_tokens"), Some(ADAPTIVE_THINKING_NON_STREAM_MAX_TOKENS));
    assert_eq!(first.get2_str("thinking", "type"), Some("adaptive"));
    assert_eq!(first.get2_str("thinking", "display"), Some("summarized"));
    assert!(first.get2("thinking", "budget_tokens").is_none());
    assert!(first.get("output_config").is_none());

    let legacy = &variants[1];
    assert_eq!(legacy.get_u64("max_tokens"), Some(THINKING_MAX_TOKENS));
    assert_eq!(legacy.get2_str("thinking", "type"), Some("enabled"));
    assert_eq!(legacy.get2_u64("thinking", "budget_tokens"), Some(THINKING_BUDGET_TOKENS));
    assert!(legacy.get("output_config").is_none());

    let fallback = &variants[2];
    assert_eq!(fallback.get_u64("max_tokens"), Some(DEFAULT_MAX_TOKENS));
    assert!(fallback.get("thinking").is_none());
    assert!(fallback.get("output_config").is_none());
}

#[test]
fn payload_variants_with_reasoning_effort_use_adaptive_thinking() {
    let messages = sample_messages();
    let variants = build_anthropic_payload_variants(
        "anthropic-opus-4-7",
        "system",
        &messages,
        false,
        Some("high"),
    );

    assert_eq!(variants.len(), 2);

    let first = &variants[0];
    assert_eq!(first.get_u64("max_tokens"), Some(ADAPTIVE_THINKING_NON_STREAM_MAX_TOKENS));
    assert_eq!(first.get2_str("thinking", "type"), Some("adaptive"));
    assert_eq!(first.get2_str("thinking", "display"), Some("summarized"));
    assert_eq!(first.get2_str("output_config", "effort"), Some("high"));
    assert!(first.get2("thinking", "budget_tokens").is_none());

    let fallback = &variants[1];
    assert_eq!(fallback.get_u64("max_tokens"), Some(DEFAULT_MAX_TOKENS));
    assert_eq!(fallback.get2_str("thinking", "type"), Some("disabled"));
    assert!(fallback.get("output_config").is_none());
}

#[test]
fn sonnet_5_ladder_never_sends_a_legacy_thinking_budget() {
    let messages = sample_messages();
    let variants = build_anthropic_payload_variants(
        "anthropic-sonnet-5",
        "system",
        &messages,
        true,
        Some("low"),
    );

    assert_eq!(variants.len(), 2);
    for variant in &variants {
        assert_ne!(variant.get2_str("thinking", "type"), Some("enabled"));
        assert!(variant.get2("thinking", "budget_tokens").is_none());
    }

    assert_eq!(variants[0].get_u64("max_tokens"), Some(ADAPTIVE_THINKING_MAX_TOKENS));
    assert_eq!(variants[0].get2_str("output_config", "effort"), Some("low"));
    assert_eq!(variants[1].get2_str("thinking", "type"), Some("disabled"));
}

#[test]
fn fable_5_ladder_never_disables_thinking() {
    let messages = sample_messages();
    let variants = build_anthropic_payload_variants(
        "anthropic-fable-5",
        "system",
        &messages,
        true,
        Some("high"),
    );

    assert_eq!(variants.len(), 2);
    for variant in &variants {
        assert_eq!(variant.get2_str("thinking", "type"), Some("adaptive"));
    }
    assert_eq!(variants[0].get2_str("output_config", "effort"), Some("high"));
    assert_eq!(variants[1].get2_str("output_config", "effort"), Some("low"));
}

#[test]
fn always_adaptive_ladder_is_not_repeated_at_the_lowest_effort() {
    let messages = sample_messages();
    let lowest =
        build_anthropic_payload_variants("Anthropic-Mythos", "system", &messages, true, Some("low"));
    assert_eq!(lowest.len(), 1);
    let unset = build_anthropic_payload_variants("anthropic-mythos", "system", &messages, true, None);
    assert_eq!(unset.len(), 2);
    assert!(unset[0].get("output_config").is_none());
}

#[test]
fn pre_4_6_models_skip_the_adaptive_variant() {
    let messages = sample_messages();
    let variants =
        build_anthropic_payload_variants("anthropic-haiku-4-5", "system", &messages, false, None);

    assert_eq!(variants.len(), 2);
    assert_eq!(variants[0].get2_str("thinking", "type"), Some("enabled"));
    assert_eq!(variants[0].get2_u64("thinking", "budget_tokens"), Some(THINKING_BUDGET_TOKENS));
    assert!(variants[1].get("thinking").is_none());
}

#[test]
fn thinking_support_goes_by_the_family() {
    assert_eq!(thinking_support("anthropic-fable-5"), ThinkingSupport::AlwaysAdaptive);
    assert_eq!(thinking_support("ANTHROPIC-OPUS-5"), ThinkingSupport::AdaptiveOnly);
    assert_eq!(thinking_support("anthropic-opus-4-8"), ThinkingSupport::AdaptiveOnly);
    assert_eq!(thinking_support("anthropic-opus-4-6"), ThinkingSupport::AdaptiveOrLegacy);
    assert_eq!(thinking_support("anthropic-3-7-sonnet"), ThinkingSupport::LegacyOnly);
    for early in [
        "anthropic-opus-4-1",
        "anthropic-opus-4-1-20250805",
        "anthropic-opus-4-1@20250805",
        "anthropic-opus-4-20250514",
        "anthropic-opus-4-0",
        "anthropic-sonnet-4",
        "anthropic-sonnet-4-20250514",
        "anthropic-opus-4-5",
        "anthropic-3-opus",
        "anthropic-opus-4@20250514",
        "anthropic-opus-4-1-latest",
        "anthropic-opus-4.1",
        "anthropic-sonnet-3.5",
        "us.vendor.anthropic-opus-4-20250514-v1:0",
    ] {
        assert_eq!(thinking_support(early), ThinkingSupport::LegacyOnly, "{early}");
    }
    for unknown in [
        "anthropic-opus-4-10",
        "anthropic-opus-4-16",
        "anthropic-opus-4-9",
        "anthropic-opus-4-latest",
        "anthropic-sonnet-4-preview",
        "anthropic-sonnet-4@latest",
        "anthropic-opus-4-202505140",
        "anthropic-opus-4-2025",
        "anthropic-opus-4-1b",
        "anthropic-opus-40",
        "anthropic-sonnet-30",
        "some-model",
        "",
    ] {
        assert_eq!(thinking_support(unknown), ThinkingSupport::AdaptiveOrLegacy, "{unknown}");
    }
    assert_eq!(thinking_support("something-else"), ThinkingSupport::AdaptiveOrLegacy);
}

#[test]
fn ceilings_are_those_of_the_api() {
    assert_eq!(DEFAULT_MAX_TOKENS, 4000);
    assert_eq!(THINKING_MAX_TOKENS, 1600);
    assert_eq!(THINKING_BUDGET_TOKENS, 1024);
    assert_eq!(ADAPTIVE_THINKING_MAX_TOKENS, 64000);
    assert_eq!(ADAPTIVE_THINKING_NON_STREAM_MAX_TOKENS, 16000);
}

#[test]
fn empty_output_with_exhausted_budget_names_the_cause() {
    let payload = parsed(r#"{"max_tokens": 16000}"#);

    let failure = empty_output_failure(&payload, Some("max_tokens"), true, "generic");
    let message = failure.report;
    assert!(message.contains("16000"), "{message}");
    assert!(message.contains("extended thinking"), "{message}");

    let failure = empty_output_failure(&payload, Some("end_turn"), false, "generic");
    assert_eq!(failure.report, "generic");
}

#[test]
fn empty_output_says_what_is_known() {
    let unset = parsed("{}");
    assert_eq!(
        empty_output_failure(&unset, Some("max_tokens"), false, "generic").report,
        "the response hit max_tokens (unset) before producing any text"
    );
    assert_eq!(
        empty_output_failure(&unset, None, true, "generic").report,
        "the response contained a thinking block and no text (stop_reason: unreported)"
    );
    assert_eq!(
        empty_output_failure(&unset, Some("end_turn"), true, "generic").report,
        "the response contained a thinking block and no text (stop_reason: end_turn)"
    );
}

#[test]
fn payload_variants_set_stream_flag_when_requested() {
    let messages = sample_messages();
    let variants = build_anthropic_payload_variants(
        "anthropic-sonnet-4-6",
        "system",
        &messages,
        true,
        Some("medium"),
    );

    for variant in &variants {
        assert!(matches!(variant.get("stream"), Some(Json::Bool(true))));
    }
}

#[test]
fn extract_response_usage_reads_input_and_output_tokens() {
    let response = parsed(r#"{"usage": {"input_tokens": 1234, "output_tokens": 56}}"#);
    let usage = extract_anthropic_response_usage(&response);
    assert_eq!(usage.input_tokens, 1234);
    assert_eq!(usage.output_tokens, 56);
    assert_eq!(usage.cache_read_input_tokens, None);
    assert_eq!(usage.cache_creation_input_tokens, None);
}

#[test]
fn extract_response_usage_reads_cache_fields_when_present() {
    let response = parsed(
        r#"{"usage": {"input_tokens": 10, "output_tokens": 5, "cache_read_input_tokens": 100, "cache_creation_input_tokens": 50}}"#,
    );
    let usage = extract_anthropic_response_usage(&response);
    assert_eq!(usage.cache_read_input_tokens, Some(100));
    assert_eq!(usage.cache_creation_input_tokens, Some(50));
}

#[test]
fn extract_response_usage_returns_empty_when_missing() {
    let response = parsed(r#"{"id": "msg_x"}"#);
    let usage = extract_anthropic_response_usage(&response);
    assert!(usage.is_empty());
}

#[test]
fn update_usage_from_message_start_event_sets_initial_input_tokens() {
    let event = parsed(
        r#"{"type": "message_start", "message": {"id": "msg_1", "usage": {"input_tokens": 500, "output_tokens": 1}}}"#,
    );
    let mut usage = TokenUsage::default();
    update_anthropic_usage_from_event(&event, &mut usage);
    assert_eq!(usage.input_tokens, 500);
    assert_eq!(usage.output_tokens, 1);
}

#[test]
fn update_usage_from_message_start_event_captures_cache_fields() {
    let event = parsed(
        r#"{"type": "message_start", "message": {"usage": {"input_tokens": 10, "output_tokens": 0, "cache_read_input_tokens": 7, "cache_creation_input_tokens": 3}}}"#,
    );
    let mut usage = TokenUsage::default();
    update_anthropic_usage_from_event(&event, &mut usage);
    assert_eq!(usage.cache_read_input_tokens, Some(7));
    assert_eq!(usage.cache_creation_input_tokens, Some(3));
}

#[test]
fn update_usage_from_message_delta_event_replaces_output_tokens() {
    let mut usage = TokenUsage { input_tokens: 500, output_tokens: 5, ..Default::default() };
    let event = parsed(r#"{"type": "message_delta", "usage": {"output_tokens": 320}}"#);
    update_anthropic_usage_from_event(&event, &mut usage);
    assert_eq!(usage.output_tokens, 320);
    assert_eq!(usage.input_tokens, 500);
}

#[test]
fn update_usage_from_unrelated_event_leaves_usage_unchanged() {
    let mut usage = TokenUsage { input_tokens: 5, output_tokens: 7, ..Default::default() };
    let event =
        parsed(r#"{"type": "content_block_delta", "delta": {"type": "text_delta", "text": "x"}}"#);
    update_anthropic_usage_from_event(&event, &mut usage);
    assert_eq!(usage.input_tokens, 5);
    assert_eq!(usage.output_tokens, 7);
}

#[test]
fn payload_variants_preserve_string_message_content_as_text_block() {
    let messages = sample_messages();
    let variants =
        build_anthropic_payload_variants("anthropic-sonnet-4-6", "system", &messages, false, None);

    let first_message = at(variants[0].get("messages").expect("messages"), 0);
    assert_eq!(first_message.get_str("role"), Some("user"));
    let block = at(first_message.get("content").expect("content"), 0);
    assert_eq!(block.get_str("type"), Some("text"));
    assert_eq!(block.get_str("text"), Some("hello"));
}

#[test]
fn message_content_of_any_shape_becomes_blocks() {
    let missing = normalize_anthropic_message_content(None);
    assert_eq!(at(&missing, 0).get_str("text"), Some(""));

    let number = normalize_anthropic_message_content(Some(&parsed("17")));
    assert_eq!(at(&number, 0).get_str("text"), Some("17"));

    let mixed = normalize_anthropic_message_content(Some(&parsed(
        r#"[{"type":"image","n":1},{"text":"plain"},{"other":[true,null]}]"#,
    )));
    assert_eq!(at(&mixed, 0).get_str("type"), Some("image"));
    assert_eq!(at(&mixed, 1).get_str("type"), Some("text"));
    assert_eq!(at(&mixed, 1).get_str("text"), Some("plain"));
    assert_eq!(at(&mixed, 2).get_str("text"), Some("{\"other\":[true,null]}"));
}

#[test]
fn payload_variants_mark_first_and_last_message_as_cacheable() {
    let messages = vec![
        parsed(r#"{"role": "user", "content": "initial prompt"}"#),
        parsed(r#"{"role": "assistant", "content": "{\"action\":\"read_file\"}"}"#),
        parsed(r#"{"role": "user", "content": "tool result"}"#),
    ];
    let variants =
        build_anthropic_payload_variants("anthropic-opus-5", "system", &messages, false, None);

    for payload in &variants {
        let rendered = payload.get("messages").expect("messages");
        let block = |index: usize| at(at(rendered, index).get("content").expect("content"), 0);
        assert_eq!(
            block(0).get2_str("cache_control", "type"),
            Some("ephemeral"),
            "the stable prefix must carry a breakpoint"
        );
        assert!(
            block(1).get("cache_control").is_none(),
            "middle turns must not consume breakpoints"
        );
        assert_eq!(
            block(2).get2_str("cache_control", "type"),
            Some("ephemeral"),
            "the rolling tail must carry a breakpoint"
        );
        assert_eq!(at(rendered, 1).get_str("role"), Some("assistant"));
    }
}

#[test]
fn payload_variants_use_a_single_breakpoint_for_a_lone_message() {
    let messages = vec![parsed(r#"{"role": "user", "content": "only turn"}"#)];
    let variants =
        build_anthropic_payload_variants("anthropic-opus-5", "system", &messages, false, None);

    let rendered = variants[0].get("messages").expect("messages");
    assert_eq!(rendered.as_array().map(Vec::len), Some(1));
    assert_eq!(
        at(at(rendered, 0).get("content").expect("content"), 0).get2_str("cache_control", "type"),
        Some("ephemeral")
    );
}

#[test]
fn auth_failures_are_fatal() {
    for status in [reqwest::StatusCode::UNAUTHORIZED, reqwest::StatusCode::FORBIDDEN] {
        let failure = classify_request_failure("Request", status.as_u16(), "{}", None);
        assert!(failure.is_fatal(), "{} should not be retried", status);
    }
}

#[test]
fn api_error_message_falls_back_to_the_raw_body() {
    assert_eq!(api_error_message("not json at all"), "not json at all");
    assert_eq!(api_error_message(r#"{"error":{"message":"clean message"}}"#), "clean message");
}

#[test]
fn mid_stream_credit_exhaustion_is_fatal() {
    let event = parsed(
        r#"{"type": "error", "error": {"type": "invalid_request_error", "message": "Your credit balance is too low to access the Anthropic API."}}"#,
    );
    let failure = classify_stream_error_event(&event);

    assert!(failure.is_fatal());
    assert!(failure.report.contains("credit balance is too low"));
}

#[test]
fn mid_stream_error_without_a_message_is_still_reported() {
    let failure = classify_stream_error_event(&parsed(r#"{"type": "error"}"#));

    assert!(!failure.is_fatal());
    assert!(failure.report.contains("unspecified error"));
}

#[test]
fn account_level_markers_are_shared_by_both_paths() {
    assert!(mentions_account_level_problem("Your credit balance is too low"));
    assert!(mentions_account_level_problem("invalid authentication"));
    assert!(!mentions_account_level_problem(
        "\"thinking.type.enabled\" is not supported for this model"
    ));
}

#[test]
fn account_level_failures_go_by_status_and_body() {
    assert!(is_account_level_failure(401, ""));
    assert!(is_account_level_failure(403, ""));
    assert!(is_account_level_failure(400, "Billing problem"));
    assert!(!is_account_level_failure(400, "bad parameter"));
    assert!(!is_account_level_failure(429, "billing"));
}

#[test]
fn rate_limits_wait_rather_than_switching_payload_variant() {
    let body = r#"{"type":"error","error":{"type":"rate_limit_error","message":"This request would exceed your rate limit of 500,000 input tokens per minute"}}"#;
    let failure = classify_request_failure(
        "Request",
        reqwest::StatusCode::TOO_MANY_REQUESTS.as_u16(),
        body,
        Some(12),
    );

    assert_eq!(failure.kind, FailureKind::RateLimited);
    assert!(!failure.is_fatal());
    assert_eq!(failure.retry_after, Some(12));
    assert!(failure.report.contains("throttling"));
}

#[test]
fn server_errors_are_waited_out_too() {
    let failure = classify_request_failure(
        "Request",
        reqwest::StatusCode::INTERNAL_SERVER_ERROR.as_u16(),
        "upstream boom",
        None,
    );

    assert_eq!(failure.kind, FailureKind::RateLimited);
    assert_eq!(failure.retry_after, None);
}

#[test]
fn unsupported_parameter_advances_to_the_next_variant() {
    let body = r#"{"type":"error","error":{"message":"\"thinking.type.enabled\" is not supported for this model."}}"#;
    let failure = classify_request_failure(
        "Request",
        reqwest::StatusCode::BAD_REQUEST.as_u16(),
        body,
        None,
    );

    assert_eq!(failure.kind, FailureKind::NextVariant);
}

#[test]
fn credit_exhaustion_remains_fatal_under_the_new_kinds() {
    let body = r#"{"type":"error","error":{"message":"Your credit balance is too low to access the Anthropic API."}}"#;
    let failure = classify_request_failure(
        "Request",
        reqwest::StatusCode::BAD_REQUEST.as_u16(),
        body,
        None,
    );

    assert!(failure.is_fatal());
}

#[test]
fn refusals_are_described_in_words() {
    let rejected = classify_request_failure(
        "Request",
        401,
        r#"{"error":{"message":"invalid x-api-key"}}"#,
        Some(3),
    );
    assert_eq!(
        rejected.report,
        "Anthropic API rejected the request (401 Unauthorized): invalid x-api-key"
    );
    assert_eq!(rejected.retry_after, None);

    let busy = classify_request_failure("Request", 529, "  busy  ", Some(3));
    assert_eq!(
        busy.report,
        "Anthropic API is throttling or unavailable (529 <unknown status code>): busy"
    );
    assert_eq!(busy.retry_after, Some(3));

    let other = classify_request_failure("Streaming request", 404, " gone ", Some(3));
    assert_eq!(other.report, "Streaming request failed with status 404 Not Found:  gone ");
    assert_eq!(other.kind, FailureKind::NextVariant);
    assert_eq!(other.retry_after, None);
}

#[test]
fn mid_stream_overload_is_waited_out() {
    let event = parsed(
        r#"{"type": "error", "error": {"type": "overloaded_error", "message": "Overloaded"}}"#,
    );
    let failure = classify_stream_error_event(&event);

    assert_eq!(failure.kind, FailureKind::RateLimited);
    assert!(!failure.is_fatal());
}

#[test]
fn mid_stream_rate_limit_is_waited_out_not_fatal() {
    let event = parsed(
        r#"{"type": "error", "error": {"type": "rate_limit_error", "message": "Rate limit exceeded"}}"#,
    );
    let failure = classify_stream_error_event(&event);

    assert_eq!(failure.kind, FailureKind::RateLimited);
    assert!(!failure.is_fatal());
}

#[test]
fn retry_after_header_is_read_in_seconds() {
    let mut headers = reqwest::header::HeaderMap::new();
    assert_eq!(parse_retry_after(&headers), None);

    headers.insert(reqwest::header::RETRY_AFTER, "30".parse().unwrap());
    assert_eq!(parse_retry_after(&headers), Some(30));

    headers.insert(
        reqwest::header::RETRY_AFTER,
        "Wed, 21 Oct 2026 07:28:00 GMT".parse().unwrap(),
    );
    assert_eq!(
        parse_retry_after(&headers),
        None,
        "http-date form falls back to exponential backoff"
    );
}

#[test]
fn retry_after_values_are_whole_seconds() {
    assert_eq!(retry_after_seconds(" 30 "), Some(30));
    assert_eq!(retry_after_seconds("+5"), Some(5));
    assert_eq!(retry_after_seconds("-5"), None);
    assert_eq!(retry_after_seconds("1.5"), None);
    assert_eq!(retry_after_seconds("18446744073709551616"), None);
}

#[test]
fn reasoning_and_text_come_from_their_own_blocks() {
    let thinking = parsed(
        r#"{"type":"content_block_delta","index":2,"delta":{"type":"thinking_delta","thinking":"hm"}}"#,
    );
    assert_eq!(extract_anthropic_reasoning_delta(&thinking), Some("hm".to_string()));
    assert_eq!(extract_anthropic_content_delta(&thinking), None);
    assert_eq!(extract_anthropic_reasoning_index(&thinking), Some(2));

    let start = parsed(
        r#"{"type":"content_block_start","content_block":{"type":"text","text":"first"}}"#,
    );
    assert_eq!(extract_anthropic_content_delta(&start), Some("first".to_string()));
    assert_eq!(extract_anthropic_reasoning_delta(&start), None);

    let other = parsed(r#"{"type":"message_delta","index":2}"#);
    assert_eq!(extract_anthropic_reasoning_index(&other), None);
}

#[test]
fn whole_responses_are_read_block_by_block() {
    let payload = parsed(r#"{"max_tokens": 4000}"#);
    let response = parsed(
        r#"{"content":[{"type":"thinking","thinking":"hm"},{"type":"text","text":"a"},{"type":"text","text":"  "},{"type":"text","text":"b"}],"usage":{"input_tokens":3,"output_tokens":4}}"#,
    );
    assert_eq!(extract_anthropic_non_stream_content(&response), Some("ab".to_string()));
    assert_eq!(extract_anthropic_non_stream_reasoning(&response), Some("hm".to_string()));
    let (content, usage) = non_stream_attempt(&payload, &response).expect("an answer");
    assert_eq!(content, "ab");
    assert_eq!(usage.input_tokens, 3);

    let untyped = parsed(r#"{"content":[{"text":"only"}]}"#);
    assert_eq!(extract_anthropic_non_stream_content(&untyped), Some("only".to_string()));

    let spent = parsed(
        r#"{"content":[{"type":"thinking","thinking":"hm"}],"stop_reason":"max_tokens"}"#,
    );
    let failure = non_stream_attempt(&payload, &spent).expect_err("no text");
    assert!(failure.report.contains("entire max_tokens budget (4000)"), "{}", failure.report);

    let failure = non_stream_attempt(&payload, &parsed("[]")).expect_err("no text");
    assert_eq!(failure.report, "Anthropic provider returned an unexpected response payload");
}

const REPLY: &str = "event: message_start\r\ndata: {\"type\":\"message_start\",\"message\":{\"usage\":{\"input_tokens\":9,\"output_tokens\":1}}}\r\n\r\ndata: {\"type\":\"content_block_delta\",\"index\":0,\"delta\":{\"type\":\"thinking_delta\",\"thinking\":\"hm\"}}\n\ndata: not json\ndata: {\"type\":\"content_block_delta\",\"index\":1,\"delta\":{\"type\":\"text_delta\",\"text\":\"sí \"}}\ndata: {\"type\":\"content_block_delta\",\"index\":1,\"delta\":{\"type\":\"text_delta\",\"text\":\"🤖\"}}\ndata: {\"type\":\"message_delta\",\"delta\":{\"stop_reason\":\"end_turn\"},\"usage\":{\"output_tokens\":12}}\ndata: {\"type\":\"message_stop\"}\n";

#[test]
fn replies_may_be_cut_at_any_byte() {
    let payload = parsed(r#"{"max_tokens": 64000}"#);
    let bytes = REPLY.as_bytes();
    for cut in 0..bytes.len() {
        let mut stream = MessageStream::start(true);
        stream.feed(&bytes[..cut]);
        stream.feed(&bytes[cut..]);
        let (result, screen) = stream.finish(&payload);
        let (content, usage) = result.expect("an answer");
        assert_eq!(content, "sí 🤖");
        assert_eq!(usage.input_tokens, 9);
        assert_eq!(usage.output_tokens, 12);
        assert_eq!(screen, "🤖 🧠 Reasoning summary:\nhm\n🤖 ↳ Output: sí 🤖\n");
    }
}

#[test]
fn replies_may_come_byte_by_byte() {
    let mut stream = MessageStream::start(false);
    for byte in REPLY.as_bytes() {
        stream.feed(&[*byte]);
    }
    let (content, usage) = stream.finish(&parsed("{}")).0.expect("an answer");
    assert_eq!(content, "sí 🤖");
    assert_eq!(usage.output_tokens, 12);
}

#[test]
fn quiet_replies_show_nothing() {
    let mut stream = MessageStream::start(false);
    stream.feed(REPLY.as_bytes());
    assert_eq!(stream.take_screen(), "");
    assert_eq!(stream.finish(&parsed("{}")).1, "");
}

#[test]
fn the_screen_is_shown_piece_by_piece() {
    let mut stream = MessageStream::start(true);
    stream.take_event(&parsed(
        r#"{"type":"content_block_delta","index":0,"delta":{"type":"thinking_delta","thinking":"a"}}"#,
    ));
    assert_eq!(stream.take_screen(), "🤖 🧠 Reasoning summary:\na");
    stream.take_event(&parsed(
        r#"{"type":"content_block_delta","index":1,"delta":{"type":"thinking_delta","thinking":"b"}}"#,
    ));
    assert_eq!(stream.take_screen(), "\n\nb");
    assert_eq!(stream.take_screen(), "");
}

#[test]
fn cut_off_replies_are_no_answers() {
    let mut stream = MessageStream::start(false);
    let cut = REPLY.len() - "data: {\"type\":\"message_stop\"}\n".len();
    stream.feed(&REPLY.as_bytes()[..cut]);
    let failure = stream.finish(&parsed("{}")).0.expect_err("cut off");
    assert_eq!(
        failure.report,
        "Streaming response ended before message_stop after 4 character(s) of output; the response was truncated"
    );
    assert_eq!(failure.kind, FailureKind::NextVariant);
}

#[test]
fn replies_without_text_name_the_cause() {
    let mut stream = MessageStream::start(false);
    stream.feed(b"data: {\"type\":\"content_block_start\",\"content_block\":{\"type\":\"thinking\",\"thinking\":\"\"}}\n");
    stream.feed(b"data: {\"type\":\"message_delta\",\"delta\":{\"stop_reason\":\"max_tokens\"}}\n");
    stream.feed(b"data: {\"type\":\"message_stop\"}\n");
    let failure = stream.finish(&parsed(r#"{"max_tokens":64000}"#)).0.expect_err("no text");
    assert!(failure.report.contains("entire max_tokens budget (64000)"), "{}", failure.report);
}

#[test]
fn an_error_event_ends_the_reply() {
    let mut stream = MessageStream::start(false);
    assert!(!stream.has_failed());
    stream.feed(
        b"data: {\"type\":\"error\",\"error\":{\"type\":\"overloaded_error\",\"message\":\"Overloaded\"}}\ndata: {\"type\":\"message_stop\"}\n",
    );
    assert!(stream.has_failed());
    stream.feed(REPLY.as_bytes());
    let failure = stream.finish(&parsed("{}")).0.expect_err("failed");
    assert_eq!(failure.report, "Anthropic API ended the stream: Overloaded");
    assert_eq!(failure.kind, FailureKind::RateLimited);
}

#[test]
fn a_done_line_puts_off_the_lines_behind_it() {
    let mut stream = MessageStream::start(false);
    stream.feed(b"data: [DONE]\ndata: {\"type\":\"content_block_delta\",\"delta\":{\"type\":\"text_delta\",\"text\":\"x\"}}\n");
    stream.feed(b"data: {\"type\":\"message_stop\"}\n");
    let (content, _) = stream.finish(&parsed("{}")).0.expect("an answer");
    assert_eq!(content, "x");
}

fn provider(model: &str) -> AnthropicProvider {
    AnthropicProvider {
        endpoint: "https://api.example/v1/messages".to_string(),
        api_key: "key".to_string(),
        model: model.to_string(),
        version: "2023-06-01".to_string(),
        ai_logs: false,
        reasoning_effort: None,
    }
}

fn limited() -> AttemptFailure {
    AttemptFailure { report: "slow".to_string(), kind: FailureKind::RateLimited, retry_after: None }
}

#[test]
fn rate_limits_are_waited_out_with_the_same_payload() {
    let mut attempts = provider("anthropic-opus-5").attempts(&sample_messages());
    assert!(attempts.in_stream());
    let before = wire::render(attempts.payload());
    for expected in [15, 30, 60, 120, 240, 300] {
        match attempts.failed(&limited()) {
            Verdict::Wait(seconds) => assert_eq!(seconds, expected),
            other => panic!("expected a wait, got {:?}", other),
        }
        assert_eq!(wire::render(attempts.payload()), before);
    }
    assert_eq!(attempts.retries(), 6);
    assert!(matches!(attempts.failed(&limited()), Verdict::TryNext));
    assert_eq!(attempts.index(), 1);
    assert_ne!(wire::render(attempts.payload()), before);
}

#[test]
fn waits_follow_the_api_up_to_the_longest() {
    let mut attempts = provider("anthropic-opus-5").attempts(&sample_messages());
    let asked = |seconds: u64| AttemptFailure { retry_after: Some(seconds), ..limited() };
    assert!(matches!(attempts.failed(&asked(12)), Verdict::Wait(12)));
    assert!(matches!(attempts.failed(&asked(9000)), Verdict::Wait(300)));
}

#[test]
fn fatal_failures_end_the_attempts() {
    let mut attempts = provider("anthropic-opus-5").attempts(&sample_messages());
    let fatal = AttemptFailure {
        report: "no credit".to_string(),
        kind: FailureKind::Fatal,
        retry_after: None,
    };
    match attempts.failed(&fatal) {
        Verdict::GiveUp(reason) => assert_eq!(reason, "no credit"),
        other => panic!("expected an end, got {:?}", other),
    }
}

#[test]
fn attempts_stream_first_and_give_up_last() {
    let mut attempts = provider("anthropic-opus-5").attempts(&sample_messages());
    let rejected = || AttemptFailure::from("bad shape".to_string());
    let mut seen = Vec::new();
    let reason = loop {
        seen.push((attempts.in_stream(), attempts.index()));
        match attempts.failed(&rejected()) {
            Verdict::TryNext => {}
            Verdict::GiveUp(reason) => break reason,
            Verdict::Wait(_) => panic!("nothing to wait for"),
        }
    };
    assert_eq!(seen, vec![(true, 0), (true, 1), (false, 0), (false, 1)]);
    assert_eq!(
        reason,
        "All non-stream model request attempts failed for model 'anthropic-opus-5': bad shape"
    );
}

#[test]
fn provider_opens_with_the_users_prompt() {
    let provider = provider("anthropic-opus-5");
    let spec = provider.provider_spec();
    assert_eq!(spec.name, "anthropic");
    assert_eq!(spec.model, Some("anthropic-opus-5".to_string()));
    assert_eq!(spec.notes, "Endpoint: https://api.example/v1/messages");

    let messages = provider.opening_messages(
        &MiniPrompt { skill_id: "s1".to_string(), text: "the skill".to_string() },
        &[],
        &ValidatorContextMap::default(),
        &PermissionPromptSpec {
            shell: "bash".to_string(),
            allowed_commands: vec![],
            scope_rules: vec![],
            workspace_root: ".".to_string(),
            read_scope: "workspace".to_string(),
            interactive_permissions: false,
            allowed_paths: vec![],
        },
    );
    assert_eq!(messages.len(), 1);
    assert_eq!(messages[0].get_str("role"), Some("user"));
    assert!(messages[0].get_str("content").expect("text").contains("the skill"));
}
