use preflight::json::Json;
use preflight::providers::console::{
    emit_reasoning_double_line_break, emit_reasoning_line_break, finalize_content_stdout,
    finalize_reasoning_stdout, maybe_emit_reasoning_line_break_on_summary_change,
    stream_content_delta_to_stdout, stream_reasoning_delta_to_stdout, ContentStreamState,
    ReasoningStreamState,
};
use preflight::providers::events::{event_data, read_line, Line};
use preflight::text;
use preflight::wire;

#[test]
fn values_are_read_and_written_by_their_text() {
    let json = wire::parse(" {\"b\":[1,-2,2.5,null,true],\"a\":\"x\\ny\"} ").expect("valid");
    assert_eq!(wire::render(&json), "{\"a\":\"x\\ny\",\"b\":[1,-2,2.5,null,true]}");
    let items = json.get_array("b").expect("an array");
    assert_eq!(items[0].as_u64(), Some(1));
    assert_eq!(items[1].as_u64(), None);
    assert_eq!(items[1].as_i64(), Some(-2));
    assert_eq!(items[2].as_u64(), None);
    assert!(matches!(items[3], Json::Null));
    assert!(wire::parse("{").is_none());
    assert!(wire::parse("1 2").is_none());
}

#[test]
fn values_go_to_the_parser_and_back() {
    let value: serde_json::Value =
        serde_json::from_str("{\"k\":[{\"n\":18446744073709551615},\"t\",false]}").expect("valid");
    let json = wire::from_value(value.clone());
    assert_eq!(json.get_array("k").expect("an array")[0].get_u64("n"), Some(u64::MAX));
    assert_eq!(wire::to_value(&json), value);
}

#[test]
fn the_last_of_two_members_counts() {
    let json = Json::object().with("a", Json::uint(1)).with("a", Json::text("two"));
    assert_eq!(json.get_str("a"), Some("two"));
    assert_eq!(wire::render(&json), "{\"a\":\"two\"}");
    let twice = Json::Object(vec![
        ("b".to_string(), Json::uint(1)),
        ("a".to_string(), Json::uint(2)),
        ("b".to_string(), Json::uint(3)),
        ("a".to_string(), Json::uint(4)),
        ("b".to_string(), Json::uint(5)),
    ]);
    assert_eq!(wire::render(&twice), "{\"a\":4,\"b\":5}");
    assert_eq!(wire::to_value(&twice), serde_json::from_str::<serde_json::Value>("{\"a\":4,\"b\":5}").expect("valid"));
    let copy = json.clone();
    assert_eq!(wire::render(&copy), wire::render(&json));
    assert_eq!(Json::array_of(&[json, Json::Null]).as_array().map(|items| items.len()), Some(2));
}

#[test]
fn event_lines_carry_data() {
    assert_eq!(event_data("data: {} \r"), Some("{}"));
    assert_eq!(event_data("  data:x"), Some("x"));
    assert_eq!(event_data("event: x"), None);
    assert_eq!(event_data(""), None);
    assert!(matches!(read_line("data: [DONE]"), Line::Done));
    assert!(matches!(read_line("data: {\"a\":1}"), Line::Event(_)));
    assert!(matches!(read_line("data: {"), Line::Nothing));
    assert!(matches!(read_line(": comment"), Line::Nothing));
}

#[test]
fn reasoning_is_headed_once_and_broken_once() {
    let mut state = ReasoningStreamState::default();
    assert_eq!(emit_reasoning_line_break(true, &mut state), "");
    assert_eq!(
        stream_reasoning_delta_to_stdout(true, &mut state, "a"),
        "🤖 🧠 Reasoning summary:\na"
    );
    assert_eq!(stream_reasoning_delta_to_stdout(true, &mut state, "b"), "b");
    assert_eq!(stream_reasoning_delta_to_stdout(true, &mut state, ""), "");
    assert_eq!(emit_reasoning_double_line_break(true, &mut state), "\n\n");
    assert_eq!(emit_reasoning_line_break(true, &mut state), "");
    assert_eq!(finalize_reasoning_stdout(true, &mut state), "");
    assert_eq!(stream_reasoning_delta_to_stdout(false, &mut state, "c"), "");
    assert_eq!(stream_reasoning_delta_to_stdout(true, &mut state, "c"), "c");
    assert_eq!(finalize_reasoning_stdout(true, &mut state), "\n");
}

#[test]
fn parts_of_the_reasoning_are_set_apart() {
    let mut state = ReasoningStreamState::default();
    assert_eq!(maybe_emit_reasoning_line_break_on_summary_change(true, &mut state, Some(0)), "");
    stream_reasoning_delta_to_stdout(true, &mut state, "a");
    assert_eq!(maybe_emit_reasoning_line_break_on_summary_change(true, &mut state, Some(0)), "");
    assert_eq!(maybe_emit_reasoning_line_break_on_summary_change(true, &mut state, None), "");
    assert_eq!(
        maybe_emit_reasoning_line_break_on_summary_change(true, &mut state, Some(1)),
        "\n\n"
    );
    assert_eq!(state.last_summary_index, Some(1));
}

#[test]
fn output_ends_with_a_line_feed() {
    let mut state = ContentStreamState::default();
    assert_eq!(finalize_content_stdout(true, &mut state), "");
    assert_eq!(stream_content_delta_to_stdout(true, &mut state, "a"), "🤖 ↳ Output: a");
    assert_eq!(finalize_content_stdout(true, &mut state), "\n");
    assert_eq!(stream_content_delta_to_stdout(true, &mut state, "b\n"), "b\n");
    assert_eq!(finalize_content_stdout(true, &mut state), "");
    assert_eq!(stream_content_delta_to_stdout(false, &mut state, "c"), "");
}

#[test]
fn texts_are_taken_apart_as_documented() {
    assert_eq!(text::trim("\u{3000} a b\r\n"), "a b");
    assert_eq!(text::lower("ÀBc"), "Àbc");
    assert!(text::contains("abc", ""));
    assert!(text::contains("abc", "bc"));
    assert!(!text::contains("abc", "cb"));
    assert_eq!(text::replace("a--b--", "--", "+"), "a+b+");
    assert_eq!(text::decimal_text(0), "0");
    assert_eq!(text::decimal_text(u64::MAX), "18446744073709551615");
    assert_eq!(text::decimal_int_text(i64::MIN), "-9223372036854775808");
    assert_eq!(text::parse_u64("18446744073709551615"), Some(u64::MAX));
    assert_eq!(text::parse_usize(""), None);
    assert_eq!(text::lines("a\r\nb\n\nc"), vec!["a", "b", "", "c"]);
    assert_eq!(text::last_word(" x  yz "), Some("yz"));
    assert_eq!(text::last_word("  "), None);
    assert_eq!(text::join(&vec!["a".to_string(), "b".to_string()], ", "), "a, b");
}
