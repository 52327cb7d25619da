use preflight::json::Json;
use preflight::model::{MiniPrompt, PermissionPromptSpec, ValidatorContextMap};
use preflight::providers::attempts::{AttemptFailure, Verdict};
use preflight::providers::openai::payload::{
    build_chat_payload_variants, build_responses_payload_variants, detect_api_family,
    messages_to_responses_input, normalize_responses_input_content, text_block_type_for_role,
    ApiFamily,
};
use preflight::providers::openai::replies::{
    extract_chat_content_delta, extract_chat_reasoning, extract_chat_reasoning_delta,
    extract_openai_chat_usage, extract_openai_responses_event_usage,
    extract_openai_responses_usage, extract_responses_content_delta,
    extract_responses_output_text, extract_responses_reasoning_delta,
    extract_responses_reasoning_summary, extract_summary_index, non_stream_chat_attempt,
    non_stream_responses_attempt,
};
use preflight::providers::openai::stream::ReplyStream;
use preflight::providers::openai::{stream_refusal, OpenAiProvider};
use preflight::wire;

fn parsed(text: &str) -> Json {
    wire::parse(text).expect("valid JSON")
}

fn hi() -> Vec<Json> {
    vec![parsed(r#"{"role": "user", "content": "hi"}"#)]
}

#[test]
fn extract_chat_usage_reads_prompt_and_completion_tokens() {
    let response = parsed(
        r#"{"choices": [{"message": {"content": "{}"}}], "usage": {"prompt_tokens": 250, "completion_tokens": 80, "total_tokens": 330}}"#,
    );
    let usage = extract_openai_chat_usage(&response).expect("usage present");
    assert_eq!(usage.input_tokens, 250);
    assert_eq!(usage.output_tokens, 80);
}

#[test]
fn extract_chat_usage_returns_none_when_missing() {
    let response = parsed(r#"{"choices": []}"#);
    assert!(extract_openai_chat_usage(&response).is_none());
}

#[test]
fn extract_chat_usage_returns_none_when_usage_is_null() {
    let response = parsed(r#"{"choices": [], "usage": null}"#);
    assert!(extract_openai_chat_usage(&response).is_none());
}

#[test]
fn extract_chat_usage_picks_up_cached_input_tokens() {
    let response = parsed(
        r#"{"usage": {"prompt_tokens": 100, "completion_tokens": 20, "prompt_tokens_details": {"cached_tokens": 40}}}"#,
    );
    let usage = extract_openai_chat_usage(&response).expect("usage present");
    assert_eq!(usage.cache_read_input_tokens, Some(40));
}

#[test]
fn extract_chat_usage_picks_up_reasoning_tokens() {
    let response = parsed(
        r#"{"usage": {"prompt_tokens": 100, "completion_tokens": 80, "completion_tokens_details": {"reasoning_tokens": 60}}}"#,
    );
    let usage = extract_openai_chat_usage(&response).expect("usage present");
    assert_eq!(usage.reasoning_tokens, Some(60));
}

#[test]
fn extract_responses_usage_reads_input_and_output_tokens() {
    let response = parsed(
        r#"{"usage": {"input_tokens": 1500, "output_tokens": 90, "total_tokens": 1590}}"#,
    );
    let usage = extract_openai_responses_usage(&response).expect("usage present");
    assert_eq!(usage.input_tokens, 1500);
    assert_eq!(usage.output_tokens, 90);
}

#[test]
fn extract_responses_usage_picks_up_cached_and_reasoning() {
    let response = parsed(
        r#"{"usage": {"input_tokens": 100, "output_tokens": 80, "input_tokens_details": {"cached_tokens": 25}, "output_tokens_details": {"reasoning_tokens": 50}}}"#,
    );
    let usage = extract_openai_responses_usage(&response).expect("usage present");
    assert_eq!(usage.cache_read_input_tokens, Some(25));
    assert_eq!(usage.reasoning_tokens, Some(50));
}

#[test]
fn extract_responses_usage_returns_none_when_missing() {
    let response = parsed(r#"{"id": "resp_x"}"#);
    assert!(extract_openai_responses_usage(&response).is_none());
}

#[test]
fn usage_of_zeros_counts_as_no_report() {
    let zeros = parsed(r#"{"usage": {"prompt_tokens": 0, "input_tokens": 0}}"#);
    assert!(extract_openai_chat_usage(&zeros).is_none());
    assert!(extract_openai_responses_usage(&zeros).is_none());
}

#[test]
fn extract_responses_event_usage_reads_response_completed() {
    let event = parsed(
        r#"{"type": "response.completed", "response": {"usage": {"input_tokens": 200, "output_tokens": 40}}}"#,
    );
    let usage = extract_openai_responses_event_usage(&event).expect("usage present");
    assert_eq!(usage.input_tokens, 200);
    assert_eq!(usage.output_tokens, 40);
}

#[test]
fn extract_responses_event_usage_returns_none_for_other_events() {
    let event = parsed(r#"{"type": "response.output_text.delta", "delta": "x"}"#);
    assert!(extract_openai_responses_event_usage(&event).is_none());
}

#[test]
fn chat_payload_includes_stream_options_include_usage_when_streaming() {
    let variants = build_chat_payload_variants("gpt-4.1-mini", &hi(), true, None, false);
    let payload = &variants[0];
    assert!(matches!(payload.get("stream"), Some(Json::Bool(true))));
    assert!(matches!(payload.get2("stream_options", "include_usage"), Some(Json::Bool(true))));
}

#[test]
fn chat_payload_without_stream_does_not_include_stream_options() {
    let variants = build_chat_payload_variants("gpt-4.1-mini", &hi(), false, None, false);
    for variant in &variants {
        assert!(variant.get("stream_options").is_none());
    }
}

#[test]
fn ollama_compat_chat_payload_omits_stream_options() {
    let variants = build_chat_payload_variants("llama3.1", &hi(), true, None, true);
    for variant in &variants {
        assert!(variant.get("stream_options").is_none());
    }
}

#[test]
fn responses_payload_with_stream_includes_usage_in_response_completed() {
    let variants = build_responses_payload_variants("gpt-4.1-mini", &hi(), true, None);
    assert!(matches!(variants[0].get("stream"), Some(Json::Bool(true))));
}

#[test]
fn chat_payloads_try_the_wishes_before_the_plain_request() {
    let plain = build_chat_payload_variants("m", &hi(), false, Some("  "), false);
    assert_eq!(plain.len(), 1);
    assert_eq!(plain[0].get2_str("response_format", "type"), Some("json_object"));

    let wishes = build_chat_payload_variants("m", &hi(), false, Some(" high "), false);
    assert_eq!(wishes.len(), 3);
    assert_eq!(wishes[0].get2_str("reasoning", "effort"), Some("high"));
    assert_eq!(wishes[1].get_str("reasoning_effort"), Some("high"));
    assert!(wishes[2].get("reasoning").is_none());
    assert!(wishes[2].get("reasoning_effort").is_none());

    let ollama = build_chat_payload_variants("m", &hi(), false, Some("high"), true);
    assert_eq!(ollama.len(), 5);
    let thinks: Vec<bool> = ollama.iter().map(|payload| payload.get("think").is_some()).collect();
    assert_eq!(thinks, vec![true, true, false, false, false]);

    let unwished = build_chat_payload_variants("m", &hi(), false, None, true);
    let thinks: Vec<bool> = unwished.iter().map(|payload| payload.get("think").is_some()).collect();
    assert_eq!(thinks, vec![true, false]);
}

#[test]
fn responses_payloads_ask_for_a_summary_first() {
    let variants = build_responses_payload_variants("m", &hi(), false, Some("low"));
    assert_eq!(variants.len(), 3);
    assert_eq!(variants[0].get2_str("reasoning", "summary"), Some("auto"));
    assert_eq!(variants[1].get2_str("reasoning", "effort"), Some("low"));
    assert!(variants[1].get2("reasoning", "summary").is_none());
    assert!(variants[2].get("reasoning").is_none());
    assert_eq!(
        variants[2].get2("text", "format").and_then(|format| format.get_str("type")),
        Some("json_object")
    );
}

#[test]
fn responses_input_types_its_text_by_role() {
    assert_eq!(text_block_type_for_role("Assistant"), "output_text");
    assert_eq!(text_block_type_for_role("user"), "input_text");

    let input = messages_to_responses_input(&[
        parsed(r#"{"role": "assistant", "content": "a"}"#),
        parsed(r#"{"content": [{"text": "b"}, {"image": 1}]}"#),
        parsed(r#"{"role": "user"}"#),
    ]);
    let block = |message: &Json, index: usize| {
        message.get_array("content").expect("content")[index].clone()
    };
    assert_eq!(block(&input[0], 0).get_str("type"), Some("output_text"));
    assert_eq!(block(&input[0], 0).get_str("text"), Some("a"));
    assert_eq!(input[1].get_str("role"), Some("user"));
    assert_eq!(block(&input[1], 0).get_str("type"), Some("input_text"));
    assert_eq!(block(&input[1], 1).get_u64("image"), Some(1));
    assert_eq!(block(&input[2], 0).get_str("text"), Some("null"));

    let number = normalize_responses_input_content("user", &parsed("5"));
    assert_eq!(number.as_array().expect("blocks")[0].get_str("text"), Some("5"));
}

#[test]
fn api_family_goes_by_the_endpoint() {
    assert_eq!(
        detect_api_family("https://api.openai.com/v1/responses", false),
        ApiFamily::Responses
    );
    assert_eq!(
        detect_api_family("https://api.openai.com/v1/responses", true),
        ApiFamily::ChatCompletions
    );
    assert_eq!(
        detect_api_family("https://api.openai.com/v1/chat/completions", false),
        ApiFamily::ChatCompletions
    );
}

#[test]
fn chat_events_name_their_reasoning_in_several_ways() {
    for name in ["reasoning_content", "reasoning", "thinking"] {
        let mut event = "{\"choices\":[{\"delta\":{\"".to_string();
        event.push_str(name);
        event.push_str("\":\"hm\",\"content\":\"x\"}}]}");
        let event = parsed(&event);
        assert_eq!(extract_chat_reasoning_delta(&event), Some("hm".to_string()));
        assert_eq!(extract_chat_content_delta(&event), Some("x".to_string()));
    }
    let response = parsed(r#"{"choices":[{"message":{"content":"c","thinking":"t"}}]}"#);
    assert_eq!(extract_chat_reasoning(&response), Some("t".to_string()));
    assert_eq!(extract_chat_content_delta(&parsed(r#"{"choices":[]}"#)), None);
}

#[test]
fn responses_events_are_reasoning_or_text() {
    let reasoning = parsed(
        r#"{"type":"response.reasoning_summary_text.delta","delta":"hm","summary_index":1}"#,
    );
    assert_eq!(extract_responses_reasoning_delta(&reasoning), Some("hm".to_string()));
    assert_eq!(extract_responses_content_delta(&reasoning), None);
    assert_eq!(extract_summary_index(&reasoning), Some(1));
    assert_eq!(extract_summary_index(&parsed(r#"{"summary":{"index":-2}}"#)), Some(-2));

    let text = parsed(r#"{"type":"Response.Output_Text.Delta","text":"x"}"#);
    assert_eq!(extract_responses_content_delta(&text), Some("x".to_string()));
    assert_eq!(extract_responses_reasoning_delta(&text), None);

    let nested = parsed(r#"{"type":"message.delta","content":{"delta":"y"}}"#);
    assert_eq!(extract_responses_content_delta(&nested), Some("y".to_string()));
    let done = parsed(r#"{"type":"response.output_text.done","text":"x"}"#);
    assert_eq!(extract_responses_content_delta(&done), None);
}

#[test]
fn whole_responses_are_read_item_by_item() {
    let whole = parsed(r#"{"output_text":"all","output":[{"type":"text","text":"x"}]}"#);
    assert_eq!(extract_responses_output_text(&whole), Some("all".to_string()));

    let items = parsed(
        r#"{"output_text":" ","output":[{"type":"reasoning","summary":[{"text":"r1"},{"text":" "},{"text":"r2"}]},{"type":"text","text":"a"},{"type":"message","content":[{"type":"output_text","text":"b"},{"type":"refusal","text":"no"},{"type":"text","text":"c"}]},{"type":"reasoning","summary":"r3"}],"usage":{"input_tokens":1,"output_tokens":2}}"#,
    );
    assert_eq!(extract_responses_output_text(&items), Some("abc".to_string()));
    assert_eq!(extract_responses_reasoning_summary(&items), Some("r1\nr2\nr3".to_string()));
    let (content, usage) = non_stream_responses_attempt(&items).expect("an answer");
    assert_eq!(content, "abc");
    assert_eq!(usage.output_tokens, 2);

    let nothing = parsed(r#"{"output":[]}"#);
    assert_eq!(extract_responses_reasoning_summary(&nothing), None);
    assert_eq!(
        non_stream_responses_attempt(&nothing).expect_err("no text").report,
        "AI provider returned an unexpected response payload"
    );
}

#[test]
fn whole_chat_responses_are_read_from_the_first_choice() {
    let response = parsed(r#"{"choices":[{"message":{"content":""}},{"message":{"content":"b"}}]}"#);
    let (content, usage) = non_stream_chat_attempt(&response).expect("an answer");
    assert_eq!(content, "");
    assert!(usage.is_empty());
    assert_eq!(
        non_stream_chat_attempt(&parsed("{}")).expect_err("no text").report,
        "AI provider returned an unexpected response payload"
    );
}

const CHAT: &str = "data: {\"choices\":[{\"delta\":{\"reasoning\":\"hm\"}}]}\r\n\r\ndata: {\"choices\":[{\"delta\":{\"content\":\"a\"}}],\"usage\":null}\ndata: {\"choices\":[{\"delta\":{\"content\":\"b\\n\"}}]}\n: comment\ndata: {\"choices\":[],\"usage\":{\"prompt_tokens\":3,\"completion_tokens\":4}}\ndata: [DONE]\n";

#[test]
fn chat_replies_may_be_cut_between_characters() {
    for cut in 0..CHAT.len() {
        let mut stream = ReplyStream::start(ApiFamily::ChatCompletions, true);
        stream.feed(&CHAT.as_bytes()[..cut]);
        stream.feed(&CHAT.as_bytes()[cut..]);
        let (result, screen) = stream.finish();
        let (content, usage) = result.expect("an answer");
        assert_eq!(content, "ab\n");
        assert_eq!(usage.input_tokens, 3);
        assert_eq!(usage.output_tokens, 4);
        assert_eq!(screen, "🤖 🧠 Reasoning summary:\nhm\n🤖 ↳ Output: ab\n");
    }
}

#[test]
fn responses_replies_set_the_parts_of_the_summary_apart() {
    let mut stream = ReplyStream::start(ApiFamily::Responses, true);
    stream.feed_text("data: {\"type\":\"response.reasoning_summary_text.delta\",\"delta\":\"a\",\"summary_index\":0}\n");
    stream.feed_text("data: {\"type\":\"response.reasoning_summary_text.delta\",\"delta\":\"b\",\"summary_index\":1}\n");
    assert_eq!(stream.take_screen(), "🤖 🧠 Reasoning summary:\na\n\nb");
    stream.feed_text("data: {\"type\":\"response.output_text.delta\",\"delta\":\"x\"}\n");
    stream.take_event(&parsed(
        r#"{"type":"response.completed","response":{"usage":{"input_tokens":7,"output_tokens":8}}}"#,
    ));
    let (result, screen) = stream.finish();
    let (content, usage) = result.expect("an answer");
    assert_eq!(content, "x");
    assert_eq!(usage.input_tokens, 7);
    assert_eq!(screen, "\n🤖 ↳ Output: x\n");
}

#[test]
fn replies_without_text_are_no_answers() {
    let chat = ReplyStream::start(ApiFamily::ChatCompletions, false);
    assert_eq!(
        chat.finish().0.expect_err("no text").report,
        "Streaming response did not include content deltas"
    );
    let responses = ReplyStream::start(ApiFamily::Responses, false);
    assert_eq!(
        responses.finish().0.expect_err("no text").report,
        "Streaming response did not include output text deltas"
    );
}

#[test]
fn refused_streams_are_described_in_words() {
    assert_eq!(
        stream_refusal(404, "gone").report,
        "Streaming request failed with status 404 Not Found: gone"
    );
}

fn provider(ai_logs: bool) -> OpenAiProvider {
    OpenAiProvider {
        endpoint: "https://api.openai.com/v1/responses".to_string(),
        api_key: "key".to_string(),
        model: "gpt-4.1-mini".to_string(),
        ai_logs,
        reasoning_effort: Some("low".to_string()),
        ollama_compat: false,
    }
}

#[test]
fn provider_streams_only_where_it_is_shown() {
    let quiet = provider(false).attempts(&hi());
    assert!(!quiet.in_stream());
    let mut shown = provider(true).attempts(&hi());
    assert!(shown.in_stream());
    let rejected = AttemptFailure::from("no".to_string());
    let mut sent = 1;
    let reason = loop {
        match shown.failed(&rejected) {
            Verdict::TryNext => sent += 1,
            Verdict::GiveUp(reason) => break reason,
            Verdict::Wait(_) => panic!("nothing to wait for"),
        }
    };
    assert_eq!(sent, 6);
    assert_eq!(reason, "All non-stream model request attempts failed: no");
}

#[test]
fn provider_opens_with_the_system_prompt() {
    let mut provider = provider(false);
    assert_eq!(
        provider.provider_spec().notes,
        "Endpoint: https://api.openai.com/v1/responses (api=responses), reasoning_effort=low"
    );
    assert_eq!(provider.provider_spec().name, "openai-compatible");
    provider.reasoning_effort = Some("  ".to_string());
    provider.ollama_compat = true;
    assert_eq!(
        provider.provider_spec().notes,
        "Endpoint: https://api.openai.com/v1/responses (api=chat-completions)"
    );
    let messages = provider.opening_messages(
        &MiniPrompt { skill_id: "s1".to_string(), text: "the skill".to_string() },
        &["a.ak".to_string()],
        &ValidatorContextMap::default(),
        &PermissionPromptSpec {
            shell: "bash".to_string(),
            allowed_commands: vec![],
            scope_rules: vec![],
            workspace_root: ".".to_string(),
            read_scope: "workspace".to_string(),
            interactive_permissions: false,
            allowed_paths: vec![],
        },
    );
    assert_eq!(messages.len(), 2);
    assert_eq!(messages[0].get_str("role"), Some("system"));
    assert_eq!(messages[1].get_str("role"), Some("user"));
    assert!(messages[1].get_str("content").expect("text").contains("- a.ak"));
}
