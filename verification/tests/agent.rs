use preflight::agent::actions::{
    classify_payload, describe_read_request_friendly, parse_agent_action,
    render_tool_output_for_log, summarize_read_request, AgentAction, ReadRequest,
};
use preflight::agent::conversation::{
    prompt_for_additional_agent_steps, AgentLoop, Awaiting, Event, MALFORMED_REPLY_NUDGE,
    MAX_AGENT_STEPS, MAX_MALFORMED_REPLIES,
};
use preflight::agent::findings::{
    format_token_usage_inline, iteration_from_parsed, parse_line_number,
};
use preflight::agent::prompts::{
    build_agent_system_prompt, build_initial_user_prompt, build_tool_result_user_prompt,
    render_permission_prompt, render_source_references, render_validator_context_map,
};
use preflight::agent::structured::{
    find_embedded_json_object, parse_structured_content, payload_candidates, preview_for_error,
};
use preflight::json::Json;
use preflight::model::{
    MiniPrompt, PermissionPromptSpec, SourceSpan, TokenUsage, ValidatorContextEntry,
    ValidatorContextMap, ValidatorHandlerContext, ValidatorParameterContext, VulnerabilitySkill,
};
use preflight::wire;

fn parsed(text: &str) -> Json {
    wire::parse(text).expect("valid JSON")
}

fn permission_prompt() -> PermissionPromptSpec {
    PermissionPromptSpec {
        shell: "bash".to_string(),
        allowed_commands: vec!["cat".to_string()],
        scope_rules: vec!["rule".to_string()],
        workspace_root: ".".to_string(),
        read_scope: "workspace".to_string(),
        interactive_permissions: false,
        allowed_paths: vec![],
    }
}

fn skill_prompt() -> MiniPrompt {
    MiniPrompt { skill_id: "s1".to_string(), text: "skill".to_string() }
}

#[test]
fn initial_prompt_renders_validator_context_map() {
    let validator_context = ValidatorContextMap {
        validators: vec![ValidatorContextEntry {
            id: "validators.vesting.hello_world".to_string(),
            module: "validators/vesting.ak".to_string(),
            source_file: "validators/vesting.ak".to_string(),
            source_span: None,
            handlers: vec![ValidatorHandlerContext {
                name: "spend".to_string(),
                parameters: vec![ValidatorParameterContext {
                    name: "datum".to_string(),
                    type_text: "Option<Datum>".to_string(),
                }],
            }],
        }],
    };

    let prompt = build_initial_user_prompt(
        &skill_prompt(),
        &["validators/vesting.ak".to_string()],
        &validator_context,
        &permission_prompt(),
    );

    assert!(prompt.contains("Validator context map:"));
    assert!(prompt.contains("validators.vesting.hello_world"));
    assert!(prompt.contains("spend(datum: Option<Datum>)"));
}

#[test]
fn initial_prompt_renders_empty_validator_context_map() {
    let prompt = build_initial_user_prompt(
        &skill_prompt(),
        &[],
        &ValidatorContextMap::default(),
        &permission_prompt(),
    );

    assert!(prompt.contains("Validator context map:"));
    assert!(prompt.contains("- (none)"));
}

#[test]
fn prompts_fill_every_placeholder() {
    let prompt = build_initial_user_prompt(
        &skill_prompt(),
        &["a.ak".to_string(), "b.ak".to_string()],
        &ValidatorContextMap::default(),
        &permission_prompt(),
    );
    assert!(!prompt.contains("{{"), "{prompt}");
    assert!(prompt.contains("skill"));
    assert!(prompt.contains("- a.ak\n- b.ak"));
    assert!(render_permission_prompt(&permission_prompt()).contains("cat"));
    assert_eq!(render_source_references(&[]), "- (none)");
    assert!(build_agent_system_prompt().contains("JSON"));
}

#[test]
fn context_map_lists_validators_and_handlers() {
    let handler = |name: &str| ValidatorHandlerContext {
        name: name.to_string(),
        parameters: vec![
            ValidatorParameterContext { name: "a".to_string(), type_text: "Int".to_string() },
            ValidatorParameterContext { name: "b".to_string(), type_text: "Data".to_string() },
        ],
    };
    let entry = |id: &str, handlers: Vec<ValidatorHandlerContext>| ValidatorContextEntry {
        id: id.to_string(),
        module: "m".to_string(),
        source_file: "f.ak".to_string(),
        source_span: Some(SourceSpan { start_line: 3, end_line: 9 }),
        handlers,
    };
    let map = ValidatorContextMap {
        validators: vec![entry("v", vec![handler("mint"), handler("spend")]), entry("w", vec![])],
    };
    assert_eq!(
        render_validator_context_map(&map),
        "- `v`\n  - source: `f.ak`\n  - `mint(a: Int, b: Data)`\n  - `spend(a: Int, b: Data)`\n- `w`\n  - source: `f.ak`\n"
    );
}

#[test]
fn parse_structured_content_recovers_object_behind_stray_prefix() {
    let parsed = parse_structured_content(
        "={\"action\":\"read_file\",\"path\":\"lib/butane/subvalidators/gov_issue.ak\"}",
    )
    .expect("should recover embedded object");

    assert_eq!(parsed.get_str("action"), Some("read_file"));
    assert_eq!(parsed.get_str("path"), Some("lib/butane/subvalidators/gov_issue.ak"));
}

#[test]
fn parse_agent_action_recovers_read_request_behind_stray_prefix() {
    let action = parse_agent_action("={\"action\":\"read_file\",\"path\":\"lib/a.ak\"}")
        .expect("should classify as a read request");

    match action {
        AgentAction::ReadRequest(ReadRequest::ReadFile { path }) => {
            assert_eq!(path, "lib/a.ak");
        }
        other => panic!("expected a read_file request, got {:?}", other),
    }
}

#[test]
fn parse_structured_content_ignores_prose_around_the_object() {
    let parsed = parse_structured_content(
        "Here is my answer:\n{\"status\":\"completed\",\"findings\":[]}\nHope that helps.",
    )
    .expect("should recover embedded object");

    assert_eq!(parsed.get_str("status"), Some("completed"));
    assert_eq!(parsed.get_array("findings").map(Vec::len), Some(0));
}

#[test]
fn parse_structured_content_does_not_stop_at_braces_inside_strings() {
    let parsed = parse_structured_content(
        "={\"action\":\"grep\",\"pattern\":\"fn foo() { bar }\",\"path\":\"lib\"}",
    )
    .expect("should recover embedded object");

    assert_eq!(parsed.get_str("pattern"), Some("fn foo() { bar }"));
    assert_eq!(parsed.get_str("path"), Some("lib"));
}

#[test]
fn parse_structured_content_handles_escaped_quotes_inside_strings() {
    let parsed = parse_structured_content(
        "={\"action\":\"grep\",\"pattern\":\"say \\\"hi\\\" }\",\"path\":\"lib\"}",
    )
    .expect("should recover embedded object");

    assert_eq!(parsed.get_str("pattern"), Some("say \"hi\" }"));
}

#[test]
fn parse_structured_content_still_accepts_plain_and_fenced_json() {
    let plain = parse_structured_content("{\"action\":\"list_dir\",\"path\":\".\"}")
        .expect("plain json should parse");
    assert_eq!(plain.get_str("action"), Some("list_dir"));

    let fenced = parse_structured_content("```json\n{\"action\":\"list_dir\",\"path\":\".\"}\n```")
        .expect("fenced json should parse");
    assert_eq!(fenced.get_str("action"), Some("list_dir"));
}

#[test]
fn parse_structured_content_error_includes_the_raw_response() {
    let error = parse_structured_content("I could not complete this analysis.")
        .expect_err("should fail without an object");

    assert!(error.contains("I could not complete this analysis."));
}

#[test]
fn parse_structured_content_rejects_unbalanced_object() {
    let error = parse_structured_content("={\"action\":\"read_file\",\"path\":\"a.ak\"")
        .expect_err("truncated object should not parse");

    assert!(error.contains("not valid JSON"));
}

#[test]
fn replies_that_were_cut_off_are_malformed() {
    for reply in ["{\"p\":\"{}\"", "{\"findings\":[{\"title\":\"T\"}"] {
        assert!(parse_structured_content(reply).is_err(), "{reply}");
        assert!(parse_agent_action(reply).is_err(), "{reply}");
    }
}

#[test]
fn embedded_objects_are_delimited_by_their_braces() {
    assert_eq!(find_embedded_json_object("x{\"a\":{}}y{}"), Some("{\"a\":{}}"));
    assert_eq!(find_embedded_json_object("{\"a\":\"\\\\\"}"), Some("{\"a\":\"\\\\\"}"));
    assert_eq!(find_embedded_json_object("no braces"), None);
    assert_eq!(find_embedded_json_object("{{}"), Some("{}"));
    assert_eq!(find_embedded_json_object("a { b {\"x\":1}"), Some("{\"x\":1}"));
    assert_eq!(find_embedded_json_object("{\"a\": \"}"), None);
    assert_eq!(find_embedded_json_object("{\"p\":\"{}\""), None);
    assert_eq!(find_embedded_json_object("{\"findings\":[{\"title\":\"T\"}"), None);
    assert_eq!(find_embedded_json_object("x {\n\t\r \"findings\": [{\"title\":\"T\"}"), None);
    assert_eq!(find_embedded_json_object("a { b \"{}\" c"), None);
    assert_eq!(find_embedded_json_object("a { b \"{\" {\"x\":1}"), Some("{\"x\":1}"));
    assert_eq!(find_embedded_json_object("a { b {\"x\":{\"y\":1}"), None);
    assert_eq!(find_embedded_json_object("say \"hi\" {\"x\":1}"), Some("{\"x\":1}"));
    assert_eq!(find_embedded_json_object("5\" {\"x\":1}"), Some("{\"x\":1}"));
    assert_eq!(find_embedded_json_object("{ not closed"), None);
    assert!(!payload_candidates("{}").is_empty());
}

#[test]
fn previews_are_cut_short() {
    assert_eq!(preview_for_error("short"), "short");
    let long = "x".repeat(5000);
    let mut cut = "x".repeat(600);
    assert_eq!(preview_for_error(&cut), cut);
    cut.push_str("… (truncated)");
    assert_eq!(preview_for_error(&long), cut);
    assert_eq!(preview_for_error(""), "(empty response)");
}

fn request_of(text: &str) -> ReadRequest {
    match parse_agent_action(text).expect("an action") {
        AgentAction::ReadRequest(request) => request,
        other => panic!("expected a request, got {:?}", other),
    }
}

#[test]
fn actions_are_told_apart_by_name() {
    match request_of("{\"action\":\"grep\",\"pattern\":\"p\",\"context_lines\":50}") {
        ReadRequest::Grep { pattern, path, context_lines } => {
            assert_eq!(pattern, "p");
            assert_eq!(path, ".");
            assert_eq!(context_lines, 20);
        }
        other => panic!("got {:?}", other),
    }
    match request_of("{\"action\":\"grep\",\"pattern\":\"p\",\"path\":\"lib\"}") {
        ReadRequest::Grep { context_lines, .. } => assert_eq!(context_lines, 2),
        other => panic!("got {:?}", other),
    }
    assert!(matches!(request_of("{\"action\":\"list_dir\"}"), ReadRequest::ListDir { .. }));
    match request_of("{\"action\":\"find_files\",\"glob\":\"*.ak\"}") {
        ReadRequest::FindFiles { path, glob } => {
            assert_eq!(path, ".");
            assert_eq!(glob, Some("*.ak".to_string()));
        }
        other => panic!("got {:?}", other),
    }
    assert!(matches!(
        parse_agent_action("{\"action\":\"final\",\"findings\":[]}"),
        Ok(AgentAction::Final(_))
    ));
    assert!(matches!(parse_agent_action("{\"status\":\"completed\"}"), Ok(AgentAction::Final(_))));
}

#[test]
fn wrong_actions_are_complained_about() {
    assert_eq!(
        classify_payload(parsed("{\"action\":\"read_file\",\"path\":7}")).err(),
        Some("Invalid agent action payload".to_string())
    );
    assert_eq!(
        classify_payload(parsed("{\"action\":\"dance\"}")).err(),
        Some("Unsupported agent action 'dance'".to_string())
    );
    assert!(classify_payload(parsed("[\"read_file\",\"a\"]")).is_err());
    assert!(classify_payload(parsed("7")).is_err());
}

#[test]
fn requests_are_put_in_words() {
    let grep = ReadRequest::Grep {
        pattern: "p".to_string(),
        path: "lib".to_string(),
        context_lines: 2,
    };
    assert_eq!(summarize_read_request(&grep), "grep pattern='p' path=lib context_lines=2");
    assert_eq!(describe_read_request_friendly(&grep), "search 'p' in 'lib' (2 context lines)");
    let find = ReadRequest::FindFiles { path: ".".to_string(), glob: None };
    assert_eq!(summarize_read_request(&find), "find_files path=. glob=*");
    assert_eq!(describe_read_request_friendly(&find), "find files in '.' with glob '*'");
    let list = ReadRequest::ListDir { path: "lib".to_string() };
    assert_eq!(summarize_read_request(&list), "list_dir lib");
    assert_eq!(describe_read_request_friendly(&list), "list directory 'lib'");
    assert_eq!(render_tool_output_for_log(&list, "out"), "out");
    let read = ReadRequest::ReadFile { path: "a.ak".to_string() };
    assert_eq!(describe_read_request_friendly(&read), "read file 'a.ak'");
    assert_eq!(
        render_tool_output_for_log(&read, "sí"),
        "📄 File 'a.ak' read (content hidden in logs, 2 chars)"
    );
}

#[test]
fn tool_result_prompt_uses_readable_request_summary() {
    let prompt = build_tool_result_user_prompt(
        &ReadRequest::ReadFile { path: "lib/a.ak".to_string() },
        "file contents",
    );

    assert!(prompt.contains("read_file lib/a.ak"));
    assert!(!prompt.contains("ReadFile {"));
    assert!(prompt.contains("file contents"));
}

fn dummy_skill() -> VulnerabilitySkill {
    VulnerabilitySkill {
        id: "test-skill".to_string(),
        name: "test".to_string(),
        severity: "low".to_string(),
        description: String::new(),
        prompt_fragment: String::new(),
        examples: Vec::new(),
        false_positives: Vec::new(),
        references: Vec::new(),
        tags: Vec::new(),
        confidence_hint: None,
        guidance_markdown: String::new(),
    }
}

fn reply(content: &str) -> Event {
    Event::Reply { content: content.to_string(), usage: TokenUsage::default() }
}

#[test]
fn agent_loop_recovers_from_one_malformed_reply() {
    let replies = [
        "\nTool disabled\nconsole.log('a')".to_string(),
        r#"{"status":"completed","findings":[]}"#.to_string(),
    ];
    let mut sent: usize = 0;
    let skill = dummy_skill();
    let mut state = AgentLoop::start(Vec::new());

    let result = loop {
        assert!(matches!(state.awaiting(), Awaiting::Reply));
        let event = reply(&replies[sent]);
        sent += 1;
        if let Some(outcome) = state.advance(&skill, "Test provider", &event) {
            break outcome;
        }
    }
    .expect("loop should recover and finish");

    assert_eq!(sent, 2, "the bad reply should have been retried");
    assert_eq!(result.findings.len(), 0);
    assert!(
        state
            .messages()
            .iter()
            .any(|m| m.get_str("content").is_some_and(|c| c.contains("not valid JSON"))),
        "a corrective nudge should have been sent"
    );
}

#[test]
fn agent_loop_gives_up_after_repeated_malformed_replies() {
    let mut sent: usize = 0;
    let skill = dummy_skill();
    let mut state = AgentLoop::start(Vec::new());

    let error = loop {
        sent += 1;
        if let Some(outcome) = state.advance(&skill, "Test provider", &reply("still not json")) {
            break outcome;
        }
    }
    .expect_err("persistent garbage should fail the skill");

    assert_eq!(sent, MAX_MALFORMED_REPLIES + 1, "should stop after the cap");
    assert!(error.message.contains("unparseable replies in a row"));
    assert_eq!(
        error.message,
        "Test provider returned 4 unparseable replies in a row for skill 'test-skill'"
    );
    assert!(error.cause.expect("a cause").contains("still not json"));
}

#[test]
fn a_good_reply_forgives_the_bad_ones() {
    let skill = dummy_skill();
    let mut state = AgentLoop::start(Vec::new());
    for _ in 0..3 {
        assert!(state.advance(&skill, "P", &reply("garbage")).is_none());
    }
    assert_eq!(state.malformed_replies(), 3);
    assert!(state.advance(&skill, "P", &reply("{\"action\":\"list_dir\"}")).is_none());
    assert_eq!(state.malformed_replies(), 0);
    assert!(matches!(state.awaiting(), Awaiting::Output(ReadRequest::ListDir { .. })));
}

#[test]
fn usage_and_messages_add_up_over_a_conversation() {
    let skill = dummy_skill();
    let mut state = AgentLoop::start(vec![parsed("{\"role\":\"user\",\"content\":\"go\"}")]);
    let used = TokenUsage { input_tokens: 10, output_tokens: 2, ..Default::default() };
    let ask = Event::Reply {
        content: "{\"action\":\"read_file\",\"path\":\"a.ak\"}".to_string(),
        usage: used,
    };
    assert!(state.advance(&skill, "P", &ask).is_none());
    assert!(state
        .advance(&skill, "P", &Event::Output(Err("denied".to_string())))
        .is_none());
    assert!(state.advance(&skill, "P", &ask).is_none());
    assert!(state
        .advance(&skill, "P", &Event::Output(Ok("validator spend {}".to_string())))
        .is_none());
    assert_eq!(state.step(), 2);
    assert_eq!(state.usage().input_tokens, 20);

    let roles: Vec<&str> =
        state.messages().iter().map(|message| message.get_str("role").expect("role")).collect();
    assert_eq!(roles, vec!["user", "assistant", "user", "assistant", "user"]);
    assert!(state.messages()[2].get_str("content").unwrap().contains("Request failed: denied"));
    assert!(state.messages()[4].get_str("content").unwrap().contains("validator spend {}"));

    let done = Event::Reply { content: "{\"status\":\"ok\"}".to_string(), usage: used };
    let result = state.advance(&skill, "P", &done).expect("over").expect("an answer");
    assert_eq!(result.token_usage.input_tokens, 30);
    assert_eq!(result.status, "ok");
    assert_eq!(result.skill_id, "test-skill");
    assert!(matches!(state.awaiting(), Awaiting::Nothing));
}

#[test]
fn events_out_of_turn_change_nothing() {
    let skill = dummy_skill();
    let mut state = AgentLoop::start(Vec::new());
    assert!(state.advance(&skill, "P", &Event::Output(Ok("x".to_string()))).is_none());
    assert!(state.advance(&skill, "P", &Event::MoreSteps(Some(5))).is_none());
    assert_eq!(state.messages().len(), 0);
    assert_eq!(state.max_steps(), MAX_AGENT_STEPS);
    let failure = state
        .advance(&skill, "P", &Event::RequestFailed("offline".to_string()))
        .expect("over")
        .expect_err("failed");
    assert_eq!(failure.message, "offline");
    assert!(failure.cause.is_none());
}

#[test]
fn the_user_decides_beyond_the_last_step() {
    let skill = dummy_skill();
    let mut state = AgentLoop::start(Vec::new());
    let ask = reply("{\"action\":\"list_dir\"}");
    let listing = Event::Output(Ok("x".to_string()));
    for _ in 0..MAX_AGENT_STEPS {
        assert!(state.advance(&skill, "P", &ask).is_none());
        assert!(state.advance(&skill, "P", &listing).is_none());
    }
    assert!(matches!(state.awaiting(), Awaiting::MoreSteps));
    assert!(state.advance(&skill, "P", &Event::MoreSteps(Some(1))).is_none());
    assert_eq!(state.max_steps(), 91);
    assert!(matches!(state.awaiting(), Awaiting::Reply));
    assert!(state.advance(&skill, "P", &ask).is_none());
    assert!(state.advance(&skill, "P", &listing).is_none());
    let failure = state
        .advance(&skill, "P", &Event::MoreSteps(None))
        .expect("over")
        .expect_err("out of steps");
    assert_eq!(
        failure.message,
        "P exceeded max interactive read steps (91) for skill 'test-skill' (enable --ai-logs to inspect progress)"
    );
}

#[test]
fn additional_steps_are_read_from_the_answers() {
    assert_eq!(prompt_for_additional_agent_steps("n", "5"), None);
    assert_eq!(prompt_for_additional_agent_steps("", "5"), None);
    assert_eq!(prompt_for_additional_agent_steps(" YES \n", "\n"), Some(90));
    assert_eq!(prompt_for_additional_agent_steps("y", " 12 \n"), Some(12));
    assert_eq!(prompt_for_additional_agent_steps("y", "0"), None);
    assert_eq!(prompt_for_additional_agent_steps("y", "many"), None);
    assert!(MALFORMED_REPLY_NUDGE.contains("exactly one JSON object and nothing else - no prose"));
}

#[test]
fn line_numbers_are_numbers_or_texts() {
    assert_eq!(parse_line_number(Some(&parsed("7"))), Some(7));
    assert_eq!(parse_line_number(Some(&parsed("\" 8 \""))), Some(8));
    assert_eq!(parse_line_number(Some(&parsed("-1"))), None);
    assert_eq!(parse_line_number(Some(&parsed("1.5"))), None);
    assert_eq!(parse_line_number(None), None);
}

#[test]
fn findings_are_filled_up_from_the_skill() {
    let answer = parsed(
        r#"{"findings":[{"title":"t","evidence":["e",3],"location":{"file":"a.ak","line":"12"}},{"severity":"high","summary":"s"}],"next_prompt":"look again"}"#,
    );
    let result = iteration_from_parsed(&dummy_skill(), &answer, TokenUsage::default());
    assert_eq!(result.status, "completed");
    assert_eq!(result.findings.len(), 2);
    assert_eq!(result.findings[0].severity, "low");
    assert_eq!(result.findings[0].evidence, vec!["e".to_string()]);
    assert_eq!(result.findings[0].file, Some("a.ak".to_string()));
    assert_eq!(result.findings[0].line, Some(12));
    assert_eq!(result.findings[1].title, "Untitled finding");
    assert_eq!(result.findings[1].severity, "high");
    assert_eq!(result.next_prompt.expect("a prompt").text, "look again");
}

#[test]
fn usage_is_put_in_one_line() {
    assert_eq!(format_token_usage_inline(&TokenUsage::default()), "no token usage reported");
    let usage = TokenUsage {
        input_tokens: 10,
        output_tokens: 2,
        cache_read_input_tokens: Some(4),
        ..Default::default()
    };
    let line = format_token_usage_inline(&usage);
    assert!(line.contains("in: 10"), "{line}");
    assert!(line.contains("out: 2"), "{line}");
    assert!(line.contains("cached: 4"), "{line}");
}
