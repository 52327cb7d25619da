use preflight::json::Json;
use preflight::model::{
    default_read_scope, default_workspace_root, sum_optional, AnalysisStateJson, AstMetadata,
    AstToolMetadata, MiniPrompt, PermissionPromptSpec, ProviderSpec, SkillIterationResult,
    SourceSpan, TokenUsage, ValidatorContextEntry, ValidatorContextMap, ValidatorHandlerContext,
    ValidatorParameterContext, VulnerabilityFinding, VulnerabilityReportSpec, VulnerabilitySkill,
};
use preflight::record::Record;
use preflight::wire;

fn iteration(token_usage: TokenUsage) -> SkillIterationResult {
    SkillIterationResult {
        skill_id: "s1".to_string(),
        status: "completed".to_string(),
        findings: vec![],
        next_prompt: None,
        token_usage,
    }
}

#[test]
fn token_usage_default_is_empty() {
    let usage = TokenUsage::default();
    assert!(usage.is_empty());
}

#[test]
fn token_usage_with_input_tokens_is_not_empty() {
    let usage = TokenUsage { input_tokens: 1, ..Default::default() };
    assert!(!usage.is_empty());
}

#[test]
fn token_usage_with_output_tokens_is_not_empty() {
    let usage = TokenUsage { output_tokens: 1, ..Default::default() };
    assert!(!usage.is_empty());
}

#[test]
fn token_usage_with_cache_field_is_not_empty() {
    let usage = TokenUsage { cache_read_input_tokens: Some(0), ..Default::default() };
    assert!(!usage.is_empty());
}

#[test]
fn token_usage_add_sums_required_fields() {
    let mut a = TokenUsage { input_tokens: 100, output_tokens: 50, ..Default::default() };
    let b = TokenUsage { input_tokens: 200, output_tokens: 25, ..Default::default() };
    a.add(&b);
    assert_eq!(a.input_tokens, 300);
    assert_eq!(a.output_tokens, 75);
}

#[test]
fn token_usage_add_sums_optional_fields_when_both_present() {
    let mut a = TokenUsage {
        cache_read_input_tokens: Some(10),
        cache_creation_input_tokens: Some(5),
        reasoning_tokens: Some(7),
        ..Default::default()
    };
    let b = TokenUsage {
        cache_read_input_tokens: Some(20),
        cache_creation_input_tokens: Some(15),
        reasoning_tokens: Some(3),
        ..Default::default()
    };
    a.add(&b);
    assert_eq!(a.cache_read_input_tokens, Some(30));
    assert_eq!(a.cache_creation_input_tokens, Some(20));
    assert_eq!(a.reasoning_tokens, Some(10));
}

#[test]
fn token_usage_add_keeps_present_when_other_is_none() {
    let mut a = TokenUsage { cache_read_input_tokens: Some(10), ..Default::default() };
    let b = TokenUsage::default();
    a.add(&b);
    assert_eq!(a.cache_read_input_tokens, Some(10));
}

#[test]
fn token_usage_add_adopts_other_when_self_is_none() {
    let mut a = TokenUsage::default();
    let b = TokenUsage { cache_read_input_tokens: Some(42), ..Default::default() };
    a.add(&b);
    assert_eq!(a.cache_read_input_tokens, Some(42));
}

#[test]
fn token_usage_skipped_when_empty_in_serialization() {
    let usage = TokenUsage::default();
    let json = wire::render(&usage.to_json());
    let json_iter = wire::render(&iteration(TokenUsage::default()).to_json());
    assert!(!json_iter.contains("token_usage"));
    assert!(json.contains("input_tokens"));
}

#[test]
fn skill_iteration_result_serializes_usage_when_non_empty() {
    let iter = iteration(TokenUsage { input_tokens: 123, output_tokens: 45, ..Default::default() });
    let json = wire::render(&iter.to_json());
    assert!(json.contains("\"token_usage\""));
    assert!(json.contains("\"input_tokens\":123"));
    assert!(json.contains("\"output_tokens\":45"));
}

/// The JSON text with the members in the order in which they were set.
fn in_order(json: &Json) -> String {
    match json {
        Json::Array(items) => {
            let items: Vec<String> = items.iter().map(in_order).collect();
            format!("[{}]", items.join(","))
        }
        Json::Object(entries) => {
            let entries: Vec<String> = entries
                .iter()
                .map(|(name, value)| format!("\"{}\":{}", name, in_order(value)))
                .collect();
            format!("{{{}}}", entries.join(","))
        }
        other => wire::render(other),
    }
}

#[test]
fn members_are_set_in_the_order_of_the_fields() {
    let mut iter = iteration(TokenUsage { input_tokens: 1, ..Default::default() });
    iter.next_prompt = Some(MiniPrompt { skill_id: "s2".to_string(), text: "go".to_string() });
    assert_eq!(
        in_order(&iter.to_json()),
        "{\"skill_id\":\"s1\",\"status\":\"completed\",\"findings\":[],\"next_prompt\":{\"skill_id\":\"s2\",\"text\":\"go\"},\"token_usage\":{\"input_tokens\":1,\"output_tokens\":0}}"
    );
    assert_eq!(in_order(&iter.to_json().clone()), in_order(&iter.to_json()));
}

fn analysis_state() -> AnalysisStateJson {
    AnalysisStateJson {
        version: "1".to_string(),
        source_files: vec!["a.ak".to_string()],
        provider: ProviderSpec {
            name: "anthropic".to_string(),
            model: None,
            notes: "n".to_string(),
        },
        permission_prompt: PermissionPromptSpec {
            shell: "bash".to_string(),
            allowed_commands: vec!["cat".to_string(), "ls".to_string()],
            scope_rules: vec![],
            workspace_root: default_workspace_root(),
            read_scope: default_read_scope(),
            interactive_permissions: true,
            allowed_paths: vec![],
        },
        ast: None,
        validator_context: ValidatorContextMap::default(),
        iterations: vec![],
        total_token_usage: TokenUsage::default(),
    }
}

#[test]
fn states_leave_out_what_is_absent() {
    assert_eq!(
        in_order(&analysis_state().to_json()),
        "{\"version\":\"1\",\"source_files\":[\"a.ak\"],\"provider\":{\"name\":\"anthropic\",\"model\":null,\"notes\":\"n\"},\"permission_prompt\":{\"shell\":\"bash\",\"allowed_commands\":[\"cat\",\"ls\"],\"scope_rules\":[],\"workspace_root\":\".\",\"read_scope\":\"workspace\",\"interactive_permissions\":true,\"allowed_paths\":[]},\"validator_context\":{\"validators\":[]},\"iterations\":[]}"
    );
}

#[test]
fn states_are_written_in_full() {
    let mut state = analysis_state();
    state.provider.model = Some("m".to_string());
    state.ast = Some(AstMetadata {
        path: "p".to_string(),
        fingerprint: "f".to_string(),
        generated_at: "now".to_string(),
        tool: AstToolMetadata { name: "t".to_string(), version: "2".to_string() },
    });
    let entry = |source_span| ValidatorContextEntry {
        id: "v".to_string(),
        module: "m".to_string(),
        source_file: "a.ak".to_string(),
        source_span,
        handlers: vec![ValidatorHandlerContext {
            name: "spend".to_string(),
            parameters: vec![ValidatorParameterContext {
                name: "d".to_string(),
                type_text: "Data".to_string(),
            }],
        }],
    };
    state.validator_context.validators =
        vec![entry(Some(SourceSpan { start_line: 3, end_line: 9 })), entry(None)];
    state.iterations = vec![iteration(TokenUsage::default())];
    state.total_token_usage.reasoning_tokens = Some(4);
    let written = in_order(&state.to_json());
    for part in [
        "\"model\":\"m\",\"notes\":\"n\"",
        ",\"ast\":{\"path\":\"p\",\"fingerprint\":\"f\",\"generated_at\":\"now\",\"tool\":{\"name\":\"t\",\"version\":\"2\"}},\"validator_context\":",
        "[{\"id\":\"v\",\"module\":\"m\",\"source_file\":\"a.ak\",\"source_span\":{\"start_line\":3,\"end_line\":9},\"handlers\":[",
        "{\"id\":\"v\",\"module\":\"m\",\"source_file\":\"a.ak\",\"handlers\":[{\"name\":\"spend\",\"parameters\":[{\"name\":\"d\",\"type\":\"Data\"}]}]}",
        "\"iterations\":[{\"skill_id\":\"s1\",\"status\":\"completed\",\"findings\":[],\"next_prompt\":null}],\"total_token_usage\":{\"input_tokens\":0,\"output_tokens\":0,\"reasoning_tokens\":4}}",
    ] {
        assert!(written.contains(part), "{part} in {written}");
    }
}

#[test]
fn reports_and_skills_are_written_in_order() {
    let report = VulnerabilityReportSpec {
        title: "r".to_string(),
        generated_at: "now".to_string(),
        findings: vec![VulnerabilityFinding {
            title: "t".to_string(),
            severity: "high".to_string(),
            summary: "s".to_string(),
            evidence: vec!["e".to_string()],
            recommendation: "fix".to_string(),
            file: Some("a.ak".to_string()),
            line: Some(7),
        }],
    };
    assert_eq!(
        in_order(&report.to_json()),
        "{\"title\":\"r\",\"generated_at\":\"now\",\"findings\":[{\"title\":\"t\",\"severity\":\"high\",\"summary\":\"s\",\"evidence\":[\"e\"],\"recommendation\":\"fix\",\"file\":\"a.ak\",\"line\":7}]}"
    );
    let skill = VulnerabilitySkill {
        id: "i".to_string(),
        name: "n".to_string(),
        severity: "low".to_string(),
        description: "d".to_string(),
        prompt_fragment: "p".to_string(),
        examples: vec!["x".to_string()],
        false_positives: vec![],
        references: vec![],
        tags: vec![],
        confidence_hint: None,
        guidance_markdown: "g".to_string(),
    };
    assert_eq!(
        in_order(&skill.to_json()),
        "{\"id\":\"i\",\"name\":\"n\",\"severity\":\"low\",\"description\":\"d\",\"prompt_fragment\":\"p\",\"examples\":[\"x\"],\"false_positives\":[],\"references\":[],\"tags\":[],\"confidence_hint\":null,\"guidance_markdown\":\"g\"}"
    );
}

#[test]
fn usage_addition_is_capped_and_ignores_order() {
    let a = TokenUsage { input_tokens: u64::MAX, reasoning_tokens: Some(1), ..Default::default() };
    let b = TokenUsage { input_tokens: 5, output_tokens: 2, ..Default::default() };
    let mut left = a;
    left.add(&b);
    let mut right = b;
    right.add(&a);
    assert_eq!(left, right);
    assert_eq!(left.input_tokens, u64::MAX);
    assert_eq!(left.reasoning_tokens, Some(1));
    let mut same = a;
    same.add(&TokenUsage::default());
    assert_eq!(same, a);
}

#[test]
fn optional_counts_add_up() {
    assert_eq!(sum_optional(None, None), None);
    assert_eq!(sum_optional(Some(3), None), Some(3));
    assert_eq!(sum_optional(None, Some(4)), Some(4));
    assert_eq!(sum_optional(Some(u64::MAX), Some(4)), Some(u64::MAX));
}

#[test]
fn defaults_of_the_permission_prompt() {
    assert_eq!(default_workspace_root(), ".");
    assert_eq!(default_read_scope(), "workspace");
    assert!(ValidatorContextMap::default().validators.is_empty());
}

#[test]
fn findings_are_written_without_an_unknown_place() {
    let mut finding = VulnerabilityFinding {
        title: "t".to_string(),
        severity: "high".to_string(),
        summary: "s".to_string(),
        evidence: vec!["e1".to_string(), "e2".to_string()],
        recommendation: "r".to_string(),
        file: None,
        line: None,
    };
    assert_eq!(
        wire::render(&finding.to_json()),
        "{\"evidence\":[\"e1\",\"e2\"],\"recommendation\":\"r\",\"severity\":\"high\",\"summary\":\"s\",\"title\":\"t\"}"
    );
    finding.file = Some("a.ak".to_string());
    finding.line = Some(7);
    let placed = wire::render(&finding.to_json());
    assert!(placed.contains("\"file\":\"a.ak\""));
    assert!(placed.contains("\"line\":7"));

    let mut iter = iteration(TokenUsage::default());
    iter.findings = vec![finding];
    iter.next_prompt =
        Some(MiniPrompt { skill_id: "s1".to_string(), text: "look again".to_string() });
    let written = iter.to_json();
    assert_eq!(written.get_array("findings").map(|items| items.len()), Some(1));
    assert_eq!(written.get2_str("next_prompt", "text"), Some("look again"));
    assert!(wire::render(&iteration(TokenUsage::default()).to_json())
        .contains("\"next_prompt\":null"));
}
