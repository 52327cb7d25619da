//! How the data of an audit is written as JSON: which members there are, in which
//! order, and which are left out.
use crate::json::{self, Json, WrittenView};
use crate::model::{
    AnalysisStateJson, AstMetadata, AstToolMetadata, MiniPrompt, PermissionPromptSpec,
    ProviderSpec, SkillIterationResult, SourceSpan, TokenUsage, ValidatorContextEntry,
    ValidatorContextMap, ValidatorHandlerContext, ValidatorParameterContext, VulnerabilityFinding,
    VulnerabilityReportSpec, VulnerabilitySkill,
};
use vstd::prelude::*;

verus! {

/// What is written as JSON.
pub trait Record {
    /// How the value is written.
    spec fn written(&self) -> WrittenView;

    /// The value as JSON.
    fn to_json(&self) -> (r: Json)
        ensures
            r.written() == self.written(),
            r@ == self.written().plain(),
    ;
}

/// How the values are written, one by one.
pub open spec fn all_written<T: Record>(items: Seq<T>) -> Seq<WrittenView> {
    Seq::new(items.len(), |i: int| items[i].written())
}

/// How an optional value is written that is never left out.
pub open spec fn or_null<T: Record>(value: Option<T>) -> WrittenView {
    match value {
        Some(value) => value.written(),
        None => WrittenView::Null,
    }
}

/// The object with a member set, where there is a value for it.
pub open spec fn with_some<T: Record>(
    object: WrittenView,
    key: Seq<char>,
    value: Option<T>,
) -> WrittenView {
    match value {
        Some(value) => object.with(key, value.written()),
        None => object,
    }
}

/// The object with a member set, where the usage is not empty.
pub open spec fn with_usage(object: WrittenView, key: Seq<char>, usage: TokenUsage) -> WrittenView {
    if usage == TokenUsage::nothing() {
        object
    } else {
        object.with(key, usage.written())
    }
}

fn write_all<T: Record>(items: &Vec<T>) -> (r: Json)
    ensures
        r.written() == WrittenView::Array(all_written(items@)),
{
    let ghost all = all_written(items@);
    let mut written: Vec<Json> = Vec::new();
    let mut i: usize = 0;
    while i < items.len()
        invariant
            i <= items.len(),
            all == all_written(items@),
            json::written_items(written@) == all.take(i as int),
        decreases items.len() - i,
    {
        json::add_item(&mut written, items[i].to_json());
        assert(all.take(i + 1) =~= all.take(i as int).push(all[i as int]));
        i += 1;
    }
    assert(all.take(i as int) =~= all);
    Json::Array(written)
}

fn write_or_null<T: Record>(value: &Option<T>) -> (r: Json)
    ensures
        r.written() == or_null(*value),
{
    match value {
        Some(value) => value.to_json(),
        None => Json::Null,
    }
}

fn add_some<T: Record>(object: Json, key: &str, value: &Option<T>) -> (r: Json)
    ensures
        r.written() == with_some(object.written(), key@, *value),
{
    match value {
        Some(value) => object.with(key, value.to_json()),
        None => object,
    }
}

fn add_usage(object: Json, key: &str, usage: &TokenUsage) -> (r: Json)
    ensures
        r.written() == with_usage(object.written(), key@, *usage),
{
    if usage.is_empty() {
        object
    } else {
        object.with(key, usage.to_json())
    }
}

impl Record for String {
    open spec fn written(&self) -> WrittenView {
        WrittenView::Text(self@)
    }

    fn to_json(&self) -> (r: Json) {
        Json::text(self)
    }
}

impl Record for u64 {
    open spec fn written(&self) -> WrittenView {
        WrittenView::Int(*self as int)
    }

    fn to_json(&self) -> (r: Json) {
        Json::uint(*self)
    }
}

impl Record for usize {
    open spec fn written(&self) -> WrittenView {
        WrittenView::Int(*self as int)
    }

    fn to_json(&self) -> (r: Json) {
        Json::uint(*self as u64)
    }
}

/// What was not reported of a usage is left out.
impl Record for TokenUsage {
    open spec fn written(&self) -> WrittenView {
        let counts = WrittenView::object().with("input_tokens"@, self.input_tokens.written()).with(
            "output_tokens"@,
            self.output_tokens.written(),
        );
        let read = with_some(counts, "cache_read_input_tokens"@, self.cache_read_input_tokens);
        let made = with_some(
            read,
            "cache_creation_input_tokens"@,
            self.cache_creation_input_tokens,
        );
        with_some(made, "reasoning_tokens"@, self.reasoning_tokens)
    }

    fn to_json(&self) -> (r: Json) {
        let counts = Json::object().with("input_tokens", self.input_tokens.to_json()).with(
            "output_tokens",
            self.output_tokens.to_json(),
        );
        let read = add_some(counts, "cache_read_input_tokens", &self.cache_read_input_tokens);
        let made = add_some(
            read,
            "cache_creation_input_tokens",
            &self.cache_creation_input_tokens,
        );
        let r = add_some(made, "reasoning_tokens", &self.reasoning_tokens);
        proof {
            json::law_values_are_what_is_written(r);
        }
        r
    }
}

/// The place of a finding is left out where it is not known.
impl Record for VulnerabilityFinding {
    open spec fn written(&self) -> WrittenView {
        let said = WrittenView::object()
            .with("title"@, self.title.written())
            .with("severity"@, self.severity.written())
            .with("summary"@, self.summary.written())
            .with("evidence"@, WrittenView::Array(all_written(self.evidence@)))
            .with("recommendation"@, self.recommendation.written());
        let more = with_some(said, "file"@, self.file);
        with_some(more, "line"@, self.line)
    }

    fn to_json(&self) -> (r: Json) {
        let said = Json::object()
            .with("title", self.title.to_json())
            .with("severity", self.severity.to_json())
            .with("summary", self.summary.to_json())
            .with("evidence", write_all(&self.evidence))
            .with("recommendation", self.recommendation.to_json());
        let more = add_some(said, "file", &self.file);
        let r = add_some(more, "line", &self.line);
        proof {
            json::law_values_are_what_is_written(r);
        }
        r
    }
}

impl Record for MiniPrompt {
    open spec fn written(&self) -> WrittenView {
        WrittenView::object()
            .with("skill_id"@, self.skill_id.written())
            .with("text"@, self.text.written())
    }

    fn to_json(&self) -> (r: Json) {
        let r = Json::object()
            .with("skill_id", self.skill_id.to_json())
            .with("text", self.text.to_json());
        proof {
            json::law_values_are_what_is_written(r);
        }
        r
    }
}

/// The usage of a skill is left out where it is empty.
impl Record for SkillIterationResult {
    open spec fn written(&self) -> WrittenView {
        let said = WrittenView::object()
            .with("skill_id"@, self.skill_id.written())
            .with("status"@, self.status.written())
            .with("findings"@, WrittenView::Array(all_written(self.findings@)))
            .with("next_prompt"@, or_null(self.next_prompt));
        with_usage(said, "token_usage"@, self.token_usage)
    }

    fn to_json(&self) -> (r: Json) {
        let said = Json::object()
            .with("skill_id", self.skill_id.to_json())
            .with("status", self.status.to_json())
            .with("findings", write_all(&self.findings))
            .with("next_prompt", write_or_null(&self.next_prompt));
        let r = add_usage(said, "token_usage", &self.token_usage);
        proof {
            json::law_values_are_what_is_written(r);
        }
        r
    }
}

impl Record for VulnerabilitySkill {
    open spec fn written(&self) -> WrittenView {
        WrittenView::object()
            .with("id"@, self.id.written())
            .with("name"@, self.name.written())
            .with("severity"@, self.severity.written())
            .with("description"@, self.description.written())
            .with("prompt_fragment"@, self.prompt_fragment.written())
            .with("examples"@, WrittenView::Array(all_written(self.examples@)))
            .with("false_positives"@, WrittenView::Array(all_written(self.false_positives@)))
            .with("references"@, WrittenView::Array(all_written(self.references@)))
            .with("tags"@, WrittenView::Array(all_written(self.tags@)))
            .with("confidence_hint"@, or_null(self.confidence_hint))
            .with("guidance_markdown"@, self.guidance_markdown.written())
    }

    fn to_json(&self) -> (r: Json) {
        let r = Json::object()
            .with("id", self.id.to_json())
            .with("name", self.name.to_json())
            .with("severity", self.severity.to_json())
            .with("description", self.description.to_json())
            .with("prompt_fragment", self.prompt_fragment.to_json())
            .with("examples", write_all(&self.examples))
            .with("false_positives", write_all(&self.false_positives))
            .with("references", write_all(&self.references))
            .with("tags", write_all(&self.tags))
            .with("confidence_hint", write_or_null(&self.confidence_hint))
            .with("guidance_markdown", self.guidance_markdown.to_json());
        proof {
            json::law_values_are_what_is_written(r);
        }
        r
    }
}

impl Record for AstToolMetadata {
    open spec fn written(&self) -> WrittenView {
        WrittenView::object()
            .with("name"@, self.name.written())
            .with("version"@, self.version.written())
    }

    fn to_json(&self) -> (r: Json) {
        let r = Json::object()
            .with("name", self.name.to_json())
            .with("version", self.version.to_json());
        proof {
            json::law_values_are_what_is_written(r);
        }
        r
    }
}

impl Record for AstMetadata {
    open spec fn written(&self) -> WrittenView {
        WrittenView::object()
            .with("path"@, self.path.written())
            .with("fingerprint"@, self.fingerprint.written())
            .with("generated_at"@, self.generated_at.written())
            .with("tool"@, self.tool.written())
    }

    fn to_json(&self) -> (r: Json) {
        let r = Json::object()
            .with("path", self.path.to_json())
            .with("fingerprint", self.fingerprint.to_json())
            .with("generated_at", self.generated_at.to_json())
            .with("tool", self.tool.to_json());
        proof {
            json::law_values_are_what_is_written(r);
        }
        r
    }
}

impl Record for SourceSpan {
    open spec fn written(&self) -> WrittenView {
        WrittenView::object()
            .with("start_line"@, self.start_line.written())
            .with("end_line"@, self.end_line.written())
    }

    fn to_json(&self) -> (r: Json) {
        let r = Json::object()
            .with("start_line", self.start_line.to_json())
            .with("end_line", self.end_line.to_json());
        proof {
            json::law_values_are_what_is_written(r);
        }
        r
    }
}

impl Record for ValidatorParameterContext {
    open spec fn written(&self) -> WrittenView {
        WrittenView::object()
            .with("name"@, self.name.written())
            .with("type"@, self.type_text.written())
    }

    fn to_json(&self) -> (r: Json) {
        let r = Json::object()
            .with("name", self.name.to_json())
            .with("type", self.type_text.to_json());
        proof {
            json::law_values_are_what_is_written(r);
        }
        r
    }
}

impl Record for ValidatorHandlerContext {
    open spec fn written(&self) -> WrittenView {
        WrittenView::object()
            .with("name"@, self.name.written())
            .with("parameters"@, WrittenView::Array(all_written(self.parameters@)))
    }

    fn to_json(&self) -> (r: Json) {
        let r = Json::object()
            .with("name", self.name.to_json())
            .with("parameters", write_all(&self.parameters));
        proof {
            json::law_values_are_what_is_written(r);
        }
        r
    }
}

/// The span of a validator is left out where it is not known.
impl Record for ValidatorContextEntry {
    open spec fn written(&self) -> WrittenView {
        let said = WrittenView::object()
            .with("id"@, self.id.written())
            .with("module"@, self.module.written())
            .with("source_file"@, self.source_file.written());
        let more = with_some(said, "source_span"@, self.source_span);
        more
            .with("handlers"@, WrittenView::Array(all_written(self.handlers@)))
    }

    fn to_json(&self) -> (r: Json) {
        let said = Json::object()
            .with("id", self.id.to_json())
            .with("module", self.module.to_json())
            .with("source_file", self.source_file.to_json());
        let more = add_some(said, "source_span", &self.source_span);
        let r = more
            .with("handlers", write_all(&self.handlers));
        proof {
            json::law_values_are_what_is_written(r);
        }
        r
    }
}

impl Record for ValidatorContextMap {
    open spec fn written(&self) -> WrittenView {
        WrittenView::object()
            .with("validators"@, WrittenView::Array(all_written(self.validators@)))
    }

    fn to_json(&self) -> (r: Json) {
        let r = Json::object()
            .with("validators", write_all(&self.validators));
        proof {
            json::law_values_are_what_is_written(r);
        }
        r
    }
}

impl Record for ProviderSpec {
    open spec fn written(&self) -> WrittenView {
        WrittenView::object()
            .with("name"@, self.name.written())
            .with("model"@, or_null(self.model))
            .with("notes"@, self.notes.written())
    }

    fn to_json(&self) -> (r: Json) {
        let r = Json::object()
            .with("name", self.name.to_json())
            .with("model", write_or_null(&self.model))
            .with("notes", self.notes.to_json());
        proof {
            json::law_values_are_what_is_written(r);
        }
        r
    }
}

impl Record for PermissionPromptSpec {
    open spec fn written(&self) -> WrittenView {
        WrittenView::object()
            .with("shell"@, self.shell.written())
            .with("allowed_commands"@, WrittenView::Array(all_written(self.allowed_commands@)))
            .with("scope_rules"@, WrittenView::Array(all_written(self.scope_rules@)))
            .with("workspace_root"@, self.workspace_root.written())
            .with("read_scope"@, self.read_scope.written())
            .with("interactive_permissions"@, WrittenView::Bool(self.interactive_permissions))
            .with("allowed_paths"@, WrittenView::Array(all_written(self.allowed_paths@)))
    }

    fn to_json(&self) -> (r: Json) {
        let r = Json::object()
            .with("shell", self.shell.to_json())
            .with("allowed_commands", write_all(&self.allowed_commands))
            .with("scope_rules", write_all(&self.scope_rules))
            .with("workspace_root", self.workspace_root.to_json())
            .with("read_scope", self.read_scope.to_json())
            .with("interactive_permissions", Json::Bool(self.interactive_permissions))
            .with("allowed_paths", write_all(&self.allowed_paths));
        proof {
            json::law_values_are_what_is_written(r);
        }
        r
    }
}

/// The syntax tree is left out where there is none, and the usage where it is empty.
impl Record for AnalysisStateJson {
    open spec fn written(&self) -> WrittenView {
        let said = WrittenView::object()
            .with("version"@, self.version.written())
            .with("source_files"@, WrittenView::Array(all_written(self.source_files@)))
            .with("provider"@, self.provider.written())
            .with("permission_prompt"@, self.permission_prompt.written());
        let more = with_some(said, "ast"@, self.ast);
        let rest = more
            .with("validator_context"@, self.validator_context.written())
            .with("iterations"@, WrittenView::Array(all_written(self.iterations@)));
        with_usage(rest, "total_token_usage"@, self.total_token_usage)
    }

    fn to_json(&self) -> (r: Json) {
        let said = Json::object()
            .with("version", self.version.to_json())
            .with("source_files", write_all(&self.source_files))
            .with("provider", self.provider.to_json())
            .with("permission_prompt", self.permission_prompt.to_json());
        let more = add_some(said, "ast", &self.ast);
        let rest = more
            .with("validator_context", self.validator_context.to_json())
            .with("iterations", write_all(&self.iterations));
        let r = add_usage(rest, "total_token_usage", &self.total_token_usage);
        proof {
            json::law_values_are_what_is_written(r);
        }
        r
    }
}

impl Record for VulnerabilityReportSpec {
    open spec fn written(&self) -> WrittenView {
        WrittenView::object()
            .with("title"@, self.title.written())
            .with("generated_at"@, self.generated_at.written())
            .with("findings"@, WrittenView::Array(all_written(self.findings@)))
    }

    fn to_json(&self) -> (r: Json) {
        let r = Json::object()
            .with("title", self.title.to_json())
            .with("generated_at", self.generated_at.to_json())
            .with("findings", write_all(&self.findings));
        proof {
            json::law_values_are_what_is_written(r);
        }
        r
    }
}

/// The usage of a skill is written exactly where there is one.
pub proof fn law_empty_usage_is_left_out(iteration: SkillIterationResult)
    ensures
        iteration.written().plain().get("token_usage"@) == if iteration.token_usage
            == TokenUsage::nothing() {
            None
        } else {
            Some(iteration.token_usage.written().plain())
        },
{
    broadcast use json::lemma_plain_with;

    reveal_strlit("token_usage");
    reveal_strlit("skill_id");
    reveal_strlit("status");
    reveal_strlit("findings");
    reveal_strlit("next_prompt");
    assert("token_usage"@[0] != "next_prompt"@[0]);
    assert("token_usage"@.len() == 11 && "skill_id"@.len() == 8);
    assert("status"@.len() == 6 && "findings"@.len() == 8);
}

/// Of the state of an audit the syntax tree is written exactly where there is one,
/// and the usage where it is not empty.
pub proof fn law_absent_parts_are_left_out(state: AnalysisStateJson)
    ensures
        state.written().plain().get("ast"@) == match state.ast {
            Some(ast) => Some(ast.written().plain()),
            None => None,
        },
        state.written().plain().get("total_token_usage"@) == if state.total_token_usage
            == TokenUsage::nothing() {
            None
        } else {
            Some(state.total_token_usage.written().plain())
        },
{
    broadcast use json::lemma_plain_with;

    reveal_strlit("version");
    reveal_strlit("source_files");
    reveal_strlit("provider");
    reveal_strlit("permission_prompt");
    reveal_strlit("ast");
    reveal_strlit("validator_context");
    reveal_strlit("iterations");
    reveal_strlit("total_token_usage");
    assert("ast"@.len() == 3 && "version"@.len() == 7 && "source_files"@.len() == 12);
    assert("provider"@.len() == 8 && "iterations"@.len() == 10);
    assert("total_token_usage"@.len() == 17 && "total_token_usage"@[0] == 't');
    assert("permission_prompt"@[0] == 'p' && "validator_context"@[0] == 'v');
}

/// The members of an outcome stand in the order of its fields.
pub proof fn law_members_stand_in_order(iteration: SkillIterationResult)
    ensures
        iteration.written().names() == seq![
            "skill_id"@,
            "status"@,
            "findings"@,
            "next_prompt"@,
        ] + (if iteration.token_usage == TokenUsage::nothing() {
            Seq::empty()
        } else {
            seq!["token_usage"@]
        }),
{
}

/// Whether the value is the row of these texts, each as it stands.
pub open spec fn is_row_of(value: WrittenView, texts: Seq<String>) -> bool {
    value matches WrittenView::Array(items) && items.len() == texts.len() && forall|i: int|
        0 <= i < texts.len() ==> #[trigger] items[i] == WrittenView::Text(texts[i]@)
}

/// Texts and numbers are written as they stand, and rows item by item.
pub proof fn law_values_are_written_as_they_stand(
    words: String,
    n: u64,
    line: usize,
    texts: Seq<String>,
)
    ensures
        words.written() == WrittenView::Text(words@),
        n.written() == WrittenView::Int(n as int),
        line.written() == WrittenView::Int(line as int),
        is_row_of(WrittenView::Array(all_written(texts)), texts),
{
}

/// A finding is written member by member under the names of its fields, and its place
/// follows where it is known.
pub proof fn law_findings_are_written_by_their_names(finding: VulnerabilityFinding)
    ensures
        ({
            let entries = finding.written().entries();
            &&& entries.len() == 5 + (if finding.file is Some {
                1int
            } else {
                0
            }) + (if finding.line is Some {
                1int
            } else {
                0
            })
            &&& entries[0] == ("title"@, WrittenView::Text(finding.title@))
            &&& entries[1] == ("severity"@, WrittenView::Text(finding.severity@))
            &&& entries[2] == ("summary"@, WrittenView::Text(finding.summary@))
            &&& entries[3].0 == "evidence"@ && is_row_of(entries[3].1, finding.evidence@)
            &&& entries[4] == ("recommendation"@, WrittenView::Text(finding.recommendation@))
            &&& finding.file matches Some(file) ==> entries[5] == (
                "file"@,
                WrittenView::Text(file@),
            )
            &&& finding.line matches Some(line) ==> entries.last() == (
                "line"@,
                WrittenView::Int(line as int),
            )
        }),
{
}

/// A usage is written figure by figure under its own name; what was not reported is
/// left out.
pub proof fn law_usages_are_written_by_their_names(usage: TokenUsage, n: u64)
    ensures
        ({
            let entries = usage.written().entries();
            let read = if usage.cache_read_input_tokens is Some {
                1int
            } else {
                0
            };
            let made = if usage.cache_creation_input_tokens is Some {
                1int
            } else {
                0
            };
            &&& entries.len() == 2 + read + made + if usage.reasoning_tokens is Some {
                1int
            } else {
                0
            }
            &&& entries[0] == ("input_tokens"@, WrittenView::Int(usage.input_tokens as int))
            &&& entries[1] == ("output_tokens"@, WrittenView::Int(usage.output_tokens as int))
            &&& usage.cache_read_input_tokens == Some(n) ==> entries[2] == (
                "cache_read_input_tokens"@,
                WrittenView::Int(n as int),
            )
            &&& usage.cache_creation_input_tokens == Some(n) ==> entries[2 + read] == (
                "cache_creation_input_tokens"@,
                WrittenView::Int(n as int),
            )
            &&& usage.reasoning_tokens == Some(n) ==> entries[2 + read + made] == (
                "reasoning_tokens"@,
                WrittenView::Int(n as int),
            )
        }),
{
}

/// The outcome of a skill is written under the names of its fields, with all of its
/// findings in order, and with null where it asks for no further prompt.
pub proof fn law_outcomes_are_written_by_their_names(
    iteration: SkillIterationResult,
    prompt: MiniPrompt,
)
    ensures
        ({
            let entries = iteration.written().entries();
            &&& entries[0] == ("skill_id"@, WrittenView::Text(iteration.skill_id@))
            &&& entries[1] == ("status"@, WrittenView::Text(iteration.status@))
            &&& entries[2].0 == "findings"@
            &&& entries[2].1 matches WrittenView::Array(items) && items.len()
                == iteration.findings@.len() && forall|i: int|
                0 <= i < items.len() ==> #[trigger] items[i] == iteration.findings@[i].written()
            &&& entries[3].0 == "next_prompt"@
            &&& iteration.next_prompt is None ==> entries[3].1 == WrittenView::Null
            &&& iteration.next_prompt == Some(prompt) ==> entries[3].1.entries() == seq![
                ("skill_id"@, WrittenView::Text(prompt.skill_id@)),
                ("text"@, WrittenView::Text(prompt.text@)),
            ]
            &&& iteration.token_usage != TokenUsage::nothing() ==> entries.len() == 5 && entries[4]
                == ("token_usage"@, iteration.token_usage.written())
        }),
{
    assert(prompt.written().entries() =~= seq![
        ("skill_id"@, WrittenView::Text(prompt.skill_id@)),
        ("text"@, WrittenView::Text(prompt.text@)),
    ]);
}

/// A skill is written under the names of its fields, in their order.
pub proof fn law_skills_are_written_by_their_names(skill: VulnerabilitySkill)
    ensures
        ({
            let entries = skill.written().entries();
            &&& entries.len() == 11
            &&& entries[0] == ("id"@, WrittenView::Text(skill.id@))
            &&& entries[1] == ("name"@, WrittenView::Text(skill.name@))
            &&& entries[2] == ("severity"@, WrittenView::Text(skill.severity@))
            &&& entries[3] == ("description"@, WrittenView::Text(skill.description@))
            &&& entries[4] == ("prompt_fragment"@, WrittenView::Text(skill.prompt_fragment@))
            &&& entries[5].0 == "examples"@ && is_row_of(entries[5].1, skill.examples@)
            &&& entries[6].0 == "false_positives"@ && is_row_of(
                entries[6].1,
                skill.false_positives@,
            )
            &&& entries[7].0 == "references"@ && is_row_of(entries[7].1, skill.references@)
            &&& entries[8].0 == "tags"@ && is_row_of(entries[8].1, skill.tags@)
            &&& entries[9].0 == "confidence_hint"@ && entries[9].1 == match skill.confidence_hint {
                Some(hint) => WrittenView::Text(hint@),
                None => WrittenView::Null,
            }
            &&& entries[10] == ("guidance_markdown"@, WrittenView::Text(skill.guidance_markdown@))
        }),
{
}

/// What is known of a syntax tree is written under the names of its fields.
pub proof fn law_syntax_trees_are_written_by_their_names(ast: AstMetadata)
    ensures
        ast.written().entries() == seq![
            ("path"@, WrittenView::Text(ast.path@)),
            ("fingerprint"@, WrittenView::Text(ast.fingerprint@)),
            ("generated_at"@, WrittenView::Text(ast.generated_at@)),
            ("tool"@, ast.tool.written()),
        ],
        ast.tool.written().entries() == seq![
            ("name"@, WrittenView::Text(ast.tool.name@)),
            ("version"@, WrittenView::Text(ast.tool.version@)),
        ],
{
}

/// A validator is written under the names of its fields, down to the parameters of
/// its handlers; its span is left out where it is not known.
pub proof fn law_validators_are_written_by_their_names(
    validators: ValidatorContextMap,
    entry: ValidatorContextEntry,
    span: SourceSpan,
    handler: ValidatorHandlerContext,
    parameter: ValidatorParameterContext,
)
    ensures
        ({
            let entries = entry.written().entries();
            &&& entries[0] == ("id"@, WrittenView::Text(entry.id@))
            &&& entries[1] == ("module"@, WrittenView::Text(entry.module@))
            &&& entries[2] == ("source_file"@, WrittenView::Text(entry.source_file@))
            &&& entry.source_span is None ==> entries.len() == 4
            &&& entry.source_span == Some(span) ==> entries.len() == 5 && entries[3].0
                == "source_span"@ && entries[3].1.entries() == seq![
                ("start_line"@, WrittenView::Int(span.start_line as int)),
                ("end_line"@, WrittenView::Int(span.end_line as int)),
            ]
            &&& entries.last().0 == "handlers"@
            &&& entries.last().1 matches WrittenView::Array(items) && items.len()
                == entry.handlers@.len() && forall|i: int|
                0 <= i < items.len() ==> #[trigger] items[i] == entry.handlers@[i].written()
        }),
        ({
            let entries = handler.written().entries();
            &&& entries.len() == 2
            &&& entries[0] == ("name"@, WrittenView::Text(handler.name@))
            &&& entries[1].0 == "parameters"@
            &&& entries[1].1 matches WrittenView::Array(items) && items.len()
                == handler.parameters@.len() && forall|i: int|
                0 <= i < items.len() ==> #[trigger] items[i] == handler.parameters@[i].written()
        }),
        parameter.written().entries() == seq![
            ("name"@, WrittenView::Text(parameter.name@)),
            ("type"@, WrittenView::Text(parameter.type_text@)),
        ],
        ({
            let entries = validators.written().entries();
            &&& entries.len() == 1
            &&& entries[0].0 == "validators"@
            &&& entries[0].1 matches WrittenView::Array(items) && items.len()
                == validators.validators@.len() && forall|i: int|
                0 <= i < items.len() ==> #[trigger] items[i] == validators.validators@[i].written()
        }),
{
    assert(span.written().entries() =~= seq![
        ("start_line"@, WrittenView::Int(span.start_line as int)),
        ("end_line"@, WrittenView::Int(span.end_line as int)),
    ]);
}

/// The provider and the permissions of an audit are written under the names of their
/// fields.
pub proof fn law_permissions_are_written_by_their_names(
    provider: ProviderSpec,
    permissions: PermissionPromptSpec,
)
    ensures
        provider.written().entries() == seq![
            ("name"@, WrittenView::Text(provider.name@)),
            (
                "model"@,
                match provider.model {
                    Some(model) => WrittenView::Text(model@),
                    None => WrittenView::Null,
                },
            ),
            ("notes"@, WrittenView::Text(provider.notes@)),
        ],
        ({
            let entries = permissions.written().entries();
            &&& entries.len() == 7
            &&& entries[0] == ("shell"@, WrittenView::Text(permissions.shell@))
            &&& entries[1].0 == "allowed_commands"@ && is_row_of(
                entries[1].1,
                permissions.allowed_commands@,
            )
            &&& entries[2].0 == "scope_rules"@ && is_row_of(
                entries[2].1,
                permissions.scope_rules@,
            )
            &&& entries[3] == ("workspace_root"@, WrittenView::Text(permissions.workspace_root@))
            &&& entries[4] == ("read_scope"@, WrittenView::Text(permissions.read_scope@))
            &&& entries[5] == (
                "interactive_permissions"@,
                WrittenView::Bool(permissions.interactive_permissions),
            )
            &&& entries[6].0 == "allowed_paths"@ && is_row_of(
                entries[6].1,
                permissions.allowed_paths@,
            )
        }),
{
}

/// The state of an audit and its report are written under the names of their fields,
/// with every source, every outcome and every finding in order.
pub proof fn law_audits_are_written_by_their_names(
    state: AnalysisStateJson,
    report: VulnerabilityReportSpec,
)
    ensures
        ({
            let entries = state.written().entries();
            let tree = if state.ast is Some {
                1int
            } else {
                0
            };
            &&& entries[0] == ("version"@, WrittenView::Text(state.version@))
            &&& entries[1].0 == "source_files"@ && is_row_of(entries[1].1, state.source_files@)
            &&& entries[2] == ("provider"@, state.provider.written())
            &&& entries[3] == ("permission_prompt"@, state.permission_prompt.written())
            &&& state.ast matches Some(ast) ==> entries[4] == ("ast"@, ast.written())
            &&& entries[4 + tree] == ("validator_context"@, state.validator_context.written())
            &&& entries[5 + tree].0 == "iterations"@
            &&& entries[5 + tree].1 matches WrittenView::Array(items) && items.len()
                == state.iterations@.len() && forall|i: int|
                0 <= i < items.len() ==> #[trigger] items[i] == state.iterations@[i].written()
        }),
        ({
            let entries = report.written().entries();
            &&& entries.len() == 3
            &&& entries[0] == ("title"@, WrittenView::Text(report.title@))
            &&& entries[1] == ("generated_at"@, WrittenView::Text(report.generated_at@))
            &&& entries[2].0 == "findings"@
            &&& entries[2].1 matches WrittenView::Array(items) && items.len()
                == report.findings@.len() && forall|i: int|
                0 <= i < items.len() ==> #[trigger] items[i] == report.findings@[i].written()
        }),
{
}

} // verus!
