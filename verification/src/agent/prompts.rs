//! The texts that a model is sent.
use crate::agent::actions::{self, ReadRequest, RequestView};
use crate::model::{
    MiniPrompt, PermissionPromptSpec, ValidatorContextEntry, ValidatorContextMap,
    ValidatorHandlerContext, ValidatorParameterContext,
};
use crate::text;
use vstd::prelude::*;
use vstd::string::StringExecFns;

verus! {

/// What every conversation starts with.
pub const AGENT_SYSTEM_PROMPT: &'static str = "You are a security auditor for Aiken smart contracts.\n\
You audit one vulnerability skill at a time and read the sources yourself.\n\
Reply with exactly one JSON object and nothing else.\n\
\n\
To read something first, reply with one of these actions:\n\
- {\"action\":\"read_file\",\"path\":\"<file>\"}\n\
- {\"action\":\"grep\",\"pattern\":\"<extended regex>\",\"path\":\"<file or directory>\",\"context_lines\":2}\n\
- {\"action\":\"list_dir\",\"path\":\"<directory>\"}\n\
- {\"action\":\"find_files\",\"path\":\"<directory>\",\"glob\":\"<glob>\"}\n\
\n\
When you are done, reply with the final action:\n\
{\"action\":\"final\",\"status\":\"completed\",\"analysis_summary\":\"<summary>\",\"findings\":[{\"title\":\"<title>\",\"severity\":\"<severity>\",\"summary\":\"<summary>\",\"evidence\":[\"<evidence>\"],\"recommendation\":\"<recommendation>\",\"file\":\"<file>\",\"line\":1}],\"next_prompt\":null}\n";

/// The first prompt, with its placeholders.
pub const INITIAL_USER_PROMPT_TEMPLATE: &'static str = "Audit the project for this vulnerability skill.\n\
\n\
Skill:\n\
{{SKILL}}\n\
\n\
Source references:\n\
{{SOURCE_REFERENCES}}\n\
\n\
Validator context map:\n\
{{VALIDATOR_CONTEXT_MAP}}\n\
\n\
{{PERMISSION_PROMPT}}\n";

/// The words on permissions, with their placeholders.
pub const PERMISSION_PROMPT_TEMPLATE: &'static str = "Read permissions:\n\
- workspace root: {{ workspace_root }}\n\
- allowed commands: {{ allowed_commands }}\n\
- {{ scope_rules }}\n";

/// The words on a result, with their placeholders.
pub const TOOL_RESULT_PROMPT_TEMPLATE: &'static str = "Result of your request:\n\
{{REQUEST}}\n\
\n\
Output:\n\
{{OUTPUT}}\n\
\n\
Reply with the next action, or with the final one.\n";

/// What every conversation starts with.
pub fn build_agent_system_prompt() -> (r: &'static str)
    ensures
        r@ == AGENT_SYSTEM_PROMPT@,
{
    AGENT_SYSTEM_PROMPT
}

/// What a model is told of its permissions.
pub open spec fn permission_text(prompt: PermissionPromptSpec) -> Seq<char> {
    text::replaced(
        text::replaced(
            text::replaced(
                PERMISSION_PROMPT_TEMPLATE@,
                "{{ workspace_root }}"@,
                prompt.workspace_root@,
            ),
            "{{ allowed_commands }}"@,
            text::joined(text::texts(prompt.allowed_commands@), ", "@),
        ),
        "{{ scope_rules }}"@,
        text::joined(text::texts(prompt.scope_rules@), "\n- "@),
    )
}

/// The sources as a list.
pub open spec fn references_text(references: Seq<String>) -> Seq<char> {
    if references.len() == 0 {
        "- (none)"@
    } else {
        text::joined(Seq::new(references.len(), |i: int| "- "@ + references[i]@), "\n"@)
    }
}

/// The parameters of a handler.
pub open spec fn parameters_text(parameters: Seq<ValidatorParameterContext>) -> Seq<char> {
    text::joined(
        Seq::new(
            parameters.len(),
            |i: int| parameters[i].name@ + ": "@ + parameters[i].type_text@,
        ),
        ", "@,
    )
}

/// The line for a handler.
pub open spec fn handler_text(handler: ValidatorHandlerContext) -> Seq<char> {
    "  - `"@ + handler.name@ + "("@ + parameters_text(handler.parameters@) + ")`"@
}

/// The lines for a validator.
pub open spec fn validator_text(validator: ValidatorContextEntry) -> Seq<char> {
    "- `"@ + validator.id@ + "`\n  - source: `"@ + validator.source_file@ + "`\n"@ + text::joined(
        Seq::new(validator.handlers@.len(), |i: int| handler_text(validator.handlers@[i])),
        "\n"@,
    )
}

/// The validators as a list.
pub open spec fn context_text(validators: Seq<ValidatorContextEntry>) -> Seq<char> {
    if validators.len() == 0 {
        "- (none)"@
    } else {
        text::joined(Seq::new(validators.len(), |i: int| validator_text(validators[i])), "\n"@)
    }
}

/// What a model is asked first. Each placeholder is filled in turn, in what the
/// earlier ones were filled with as well.
pub open spec fn initial_prompt(
    skill: Seq<char>,
    references: Seq<String>,
    validators: Seq<ValidatorContextEntry>,
    permissions: PermissionPromptSpec,
) -> Seq<char> {
    text::replaced(
        text::replaced(
            text::replaced(
                text::replaced(INITIAL_USER_PROMPT_TEMPLATE@, "{{SKILL}}"@, skill),
                "{{SOURCE_REFERENCES}}"@,
                references_text(references),
            ),
            "{{VALIDATOR_CONTEXT_MAP}}"@,
            context_text(validators),
        ),
        "{{PERMISSION_PROMPT}}"@,
        permission_text(permissions),
    )
}

/// What a model is told of the outcome of its request.
pub open spec fn tool_result_prompt(request: RequestView, output: Seq<char>) -> Seq<char> {
    text::replaced(
        text::replaced(
            TOOL_RESULT_PROMPT_TEMPLATE@,
            "{{REQUEST}}"@,
            actions::summary_of(request),
        ),
        "{{OUTPUT}}"@,
        output,
    )
}

/// What a model is told of its permissions.
pub fn render_permission_prompt(permission_prompt: &PermissionPromptSpec) -> (r: String)
    ensures
        r@ == permission_text(*permission_prompt),
{
    proof {
        reveal_strlit("{{ workspace_root }}");
        reveal_strlit("{{ allowed_commands }}");
        reveal_strlit("{{ scope_rules }}");
    }
    let rooted = text::replace(
        PERMISSION_PROMPT_TEMPLATE,
        "{{ workspace_root }}",
        &permission_prompt.workspace_root,
    );
    let commanded = text::replace(
        &rooted,
        "{{ allowed_commands }}",
        &text::join(&permission_prompt.allowed_commands, ", "),
    );
    text::replace(
        &commanded,
        "{{ scope_rules }}",
        &text::join(&permission_prompt.scope_rules, "\n- "),
    )
}

/// The sources as a list.
pub fn render_source_references(source_references: &[String]) -> (r: String)
    ensures
        r@ == references_text(source_references@),
{
    if source_references.len() == 0 {
        return "- (none)".to_owned();
    }
    let ghost all = Seq::new(source_references@.len(), |i: int| "- "@ + source_references@[i]@);
    let mut lines: Vec<String> = Vec::new();
    let mut i: usize = 0;
    while i < source_references.len()
        invariant
            i <= source_references.len(),
            all == Seq::new(source_references@.len(), |i: int| "- "@ + source_references@[i]@),
            lines.len() == i,
            forall|k: int| 0 <= k < i ==> #[trigger] lines@[k]@ == all[k],
        decreases source_references.len() - i,
    {
        lines.push("- ".to_owned().concat(&source_references[i]));
        i += 1;
    }
    assert(text::texts(lines@) =~= all);
    text::join(&lines, "\n")
}

fn render_parameters(parameters: &Vec<ValidatorParameterContext>) -> (r: String)
    ensures
        r@ == parameters_text(parameters@),
{
    let ghost all = Seq::new(
        parameters@.len(),
        |i: int| parameters@[i].name@ + ": "@ + parameters@[i].type_text@,
    );
    let mut parts: Vec<String> = Vec::new();
    let mut i: usize = 0;
    while i < parameters.len()
        invariant
            i <= parameters.len(),
            all == Seq::new(
                parameters@.len(),
                |i: int| parameters@[i].name@ + ": "@ + parameters@[i].type_text@,
            ),
            parts.len() == i,
            forall|k: int| 0 <= k < i ==> #[trigger] parts@[k]@ == all[k],
        decreases parameters.len() - i,
    {
        let part = parameters[i].name.clone().concat(": ").concat(&parameters[i].type_text);
        parts.push(part);
        i += 1;
    }
    assert(text::texts(parts@) =~= all);
    text::join(&parts, ", ")
}

fn render_handler(handler: &ValidatorHandlerContext) -> (r: String)
    ensures
        r@ == handler_text(*handler),
{
    let mut r = "  - `".to_owned();
    r.append(&handler.name);
    r.append("(");
    r.append(&render_parameters(&handler.parameters));
    r.append(")`");
    r
}

fn render_validator(validator: &ValidatorContextEntry) -> (r: String)
    ensures
        r@ == validator_text(*validator),
{
    let ghost all = Seq::new(
        validator.handlers@.len(),
        |i: int| handler_text(validator.handlers@[i]),
    );
    let mut lines: Vec<String> = Vec::new();
    let mut i: usize = 0;
    while i < validator.handlers.len()
        invariant
            i <= validator.handlers.len(),
            all == Seq::new(
                validator.handlers@.len(),
                |i: int| handler_text(validator.handlers@[i]),
            ),
            lines.len() == i,
            forall|k: int| 0 <= k < i ==> #[trigger] lines@[k]@ == all[k],
        decreases validator.handlers.len() - i,
    {
        lines.push(render_handler(&validator.handlers[i]));
        i += 1;
    }
    assert(text::texts(lines@) =~= all);
    let mut r = "- `".to_owned();
    r.append(&validator.id);
    r.append("`\n  - source: `");
    r.append(&validator.source_file);
    r.append("`\n");
    r.append(&text::join(&lines, "\n"));
    r
}

/// The validators as a list.
pub fn render_validator_context_map(validator_context: &ValidatorContextMap) -> (r: String)
    ensures
        r@ == context_text(validator_context.validators@),
{
    let validators = &validator_context.validators;
    if validators.len() == 0 {
        return "- (none)".to_owned();
    }
    let ghost all = Seq::new(validators@.len(), |i: int| validator_text(validators@[i]));
    let mut blocks: Vec<String> = Vec::new();
    let mut i: usize = 0;
    while i < validators.len()
        invariant
            i <= validators.len(),
            all == Seq::new(validators@.len(), |i: int| validator_text(validators@[i])),
            blocks.len() == i,
            forall|k: int| 0 <= k < i ==> #[trigger] blocks@[k]@ == all[k],
        decreases validators.len() - i,
    {
        blocks.push(render_validator(&validators[i]));
        i += 1;
    }
    assert(text::texts(blocks@) =~= all);
    text::join(&blocks, "\n")
}

/// What a model is asked first.
pub fn build_initial_user_prompt(
    prompt: &MiniPrompt,
    source_references: &[String],
    validator_context: &ValidatorContextMap,
    permission_prompt: &PermissionPromptSpec,
) -> (r: String)
    ensures
        r@ == initial_prompt(
            prompt.text@,
            source_references@,
            validator_context.validators@,
            *permission_prompt,
        ),
{
    proof {
        reveal_strlit("{{SKILL}}");
        reveal_strlit("{{SOURCE_REFERENCES}}");
        reveal_strlit("{{VALIDATOR_CONTEXT_MAP}}");
        reveal_strlit("{{PERMISSION_PROMPT}}");
    }
    let skilled = text::replace(INITIAL_USER_PROMPT_TEMPLATE, "{{SKILL}}", &prompt.text);
    let referenced = text::replace(
        &skilled,
        "{{SOURCE_REFERENCES}}",
        &render_source_references(source_references),
    );
    let mapped = text::replace(
        &referenced,
        "{{VALIDATOR_CONTEXT_MAP}}",
        &render_validator_context_map(validator_context),
    );
    text::replace(&mapped, "{{PERMISSION_PROMPT}}", &render_permission_prompt(permission_prompt))
}

/// What a model is told of the outcome of its request.
pub fn build_tool_result_user_prompt(request: &ReadRequest, output: &str) -> (r: String)
    ensures
        r@ == tool_result_prompt(request@, output@),
{
    proof {
        reveal_strlit("{{REQUEST}}");
        reveal_strlit("{{OUTPUT}}");
    }
    let requested = text::replace(
        TOOL_RESULT_PROMPT_TEMPLATE,
        "{{REQUEST}}",
        &actions::summarize_read_request(request),
    );
    text::replace(&requested, "{{OUTPUT}}", output)
}

/// Whether two opening braces, as every placeholder starts with, stand at `i`.
pub open spec fn opens_placeholder(s: Seq<char>, i: int) -> bool {
    0 <= i && i + 1 < s.len() && s[i] == '{' && s[i + 1] == '{'
}

/// Whether the text holds anything that could be taken for a placeholder.
pub open spec fn holds_placeholder(s: Seq<char>) -> bool {
    exists|i: int| opens_placeholder(s, i)
}

proof fn lemma_no_earlier_placeholder(front: Seq<char>, marker: Seq<char>, rest: Seq<char>, i: int)
    requires
        0 <= i < front.len(),
        marker.len() >= 2,
        marker[0] == '{',
        marker[1] == '{',
        !holds_placeholder(front),
        front.last() != '{',
    ensures
        !text::is_at(front + marker + rest, marker, i),
{
    let s = front + marker + rest;
    if text::is_at(s, marker, i) {
        let found = s.subrange(i, i + marker.len());
        assert(found[0] == s[i] && found[1] == s[i + 1]);
        assert(opens_placeholder(front, i));
    }
}

proof fn lemma_no_later_placeholder(rest: Seq<char>, marker: Seq<char>, k: int)
    requires
        0 <= k < marker.len(),
        forall|i: int| 0 <= i < rest.len() ==> #[trigger] rest[i] != marker[k],
    ensures
        !text::occurs(rest, marker),
{
    if text::occurs(rest, marker) {
        let i = choose|i: int| text::is_at(rest, marker, i);
        let found = rest.subrange(i, i + marker.len());
        assert(found[k] == rest[i + k]);
    }
}

/// A placeholder is filled where it stands, and nothing else is touched.
proof fn lemma_filled(front: Seq<char>, marker: Seq<char>, rest: Seq<char>, k: int, to: Seq<char>)
    requires
        marker.len() >= 2,
        marker[0] == '{',
        marker[1] == '{',
        !holds_placeholder(front),
        front.len() > 0 ==> front.last() != '{',
        0 <= k < marker.len(),
        forall|i: int| 0 <= i < rest.len() ==> #[trigger] rest[i] != marker[k],
    ensures
        text::replaced(front + marker + rest, marker, to) == front + to + rest,
{
    assert forall|i: int| 0 <= i < front.len() implies !#[trigger] text::is_at(
        front + marker + rest,
        marker,
        i,
    ) by {
        lemma_no_earlier_placeholder(front, marker, rest, i);
    }
    text::law_the_first_occurrence_is_replaced(front, marker, rest, to);
    lemma_no_later_placeholder(rest, marker, k);
    text::law_nothing_else_is_replaced(rest, marker, to);
}

proof fn lemma_no_placeholder_in_both(left: Seq<char>, right: Seq<char>)
    requires
        !holds_placeholder(left),
        !holds_placeholder(right),
        left.len() > 0 && right.len() > 0 ==> left.last() != '{' || right[0] != '{',
    ensures
        !holds_placeholder(left + right),
{
    if holds_placeholder(left + right) {
        let i = choose|i: int| opens_placeholder(left + right, i);
        if i + 1 < left.len() {
            assert(opens_placeholder(left, i));
        } else if i >= left.len() {
            assert(opens_placeholder(right, i - left.len()));
        }
    }
}

proof fn lemma_part_occurs(front: Seq<char>, part: Seq<char>, rest: Seq<char>)
    ensures
        text::occurs(front + part + rest, part),
{
    let whole = front + part + rest;
    let n = front.len() as int;
    assert(whole.subrange(n, n + part.len()) =~= part);
    assert(text::is_at(whole, part, n));
}

/// A piece of a template without braces holds no placeholder.
proof fn lemma_piece(s: Seq<char>, from: int, to: int)
    requires
        0 <= from <= to <= s.len(),
        text::is_free_of(s, '{', from, to),
    ensures
        !holds_placeholder(s.subrange(from, to)),
        from < to ==> s.subrange(from, to).last() != '{' && s.subrange(from, to)[0] != '{',
{
    text::lemma_free_of(s, '{', from, to);
    let piece = s.subrange(from, to);
    assert forall|i: int| 0 <= i < piece.len() implies #[trigger] piece[i] != '{' by {
        assert(piece[i] == s[from + i]);
    }
}

proof fn lemma_rest_is_free(s: Seq<char>, c: char, from: int)
    requires
        0 <= from <= s.len(),
        text::is_free_of(s, c, from, s.len() as int),
    ensures
        forall|i: int| 0 <= i < s.skip(from).len() ==> #[trigger] s.skip(from)[i] != c,
{
    text::lemma_free_of(s, c, from, s.len() as int);
    assert forall|i: int| 0 <= i < s.skip(from).len() implies #[trigger] s.skip(from)[i] != c by {
        assert(s.skip(from)[i] == s[from + i]);
    }
}

proof fn lemma_tool_result_template() -> (s: Seq<char>)
    ensures
        s == TOOL_RESULT_PROMPT_TEMPLATE@,
        s.len() == 108,
        s.subrange(24, 35) == "{{REQUEST}}"@,
        s.subrange(45, 55) == "{{OUTPUT}}"@,
        text::is_free_of(s, '{', 0, 24),
        text::is_free_of(s, 'Q', 35, 108),
        text::is_free_of(s, '{', 35, 45),
        text::is_free_of(s, 'U', 55, 108),
        "{{REQUEST}}"@[4] == 'Q',
        "{{OUTPUT}}"@[3] == 'U',
        opens_placeholder("{{REQUEST}}"@, 0),
        opens_placeholder("{{OUTPUT}}"@, 0),
{
    let s = TOOL_RESULT_PROMPT_TEMPLATE@;
    reveal_strlit(
        "Result of your request:\n\
{{REQUEST}}\n\
\n\
Output:\n\
{{OUTPUT}}\n\
\n\
Reply with the next action, or with the final one.\n",
    );
    reveal_strlit("{{REQUEST}}");
    reveal_strlit("{{OUTPUT}}");
    assert(s.subrange(24, 35) =~= "{{REQUEST}}"@);
    assert(s.subrange(45, 55) =~= "{{OUTPUT}}"@);
    reveal_with_fuel(text::is_free_of, 80);
    s
}

proof fn lemma_requested(summary: Seq<char>)
    ensures
        ({
            let s = TOOL_RESULT_PROMPT_TEMPLATE@;
            text::replaced(s, "{{REQUEST}}"@, summary) == s.take(24) + summary + s.subrange(35, 45)
                + "{{OUTPUT}}"@ + s.skip(55)
        }),
{
    let s = lemma_tool_result_template();
    lemma_piece(s, 0, 24);
    lemma_rest_is_free(s, 'Q', 35);
    assert(s.take(24) =~= s.subrange(0, 24));
    assert(s =~= s.take(24) + "{{REQUEST}}"@ + s.skip(35));
    lemma_filled(s.take(24), "{{REQUEST}}"@, s.skip(35), 4, summary);
    assert(s.skip(35) =~= s.subrange(35, 45) + "{{OUTPUT}}"@ + s.skip(55));
    assert(s.take(24) + summary + s.skip(35) =~= s.take(24) + summary + s.subrange(35, 45)
        + "{{OUTPUT}}"@ + s.skip(55));
}

/// The output of a request stands in what the model is told of it as one unabridged
/// part, whatever the request and however long the output.
pub proof fn law_outputs_are_told_whole(request: RequestView, output: Seq<char>)
    ensures
        text::occurs(tool_result_prompt(request, output), output),
{
    let s = lemma_tool_result_template();
    let summary = actions::summary_of(request);
    lemma_requested(summary);
    let front = s.take(24) + summary + s.subrange(35, 45);
    lemma_part_occurs(front, "{{OUTPUT}}"@, s.skip(55));
    text::law_replacements_stand_whole(
        front + "{{OUTPUT}}"@ + s.skip(55),
        "{{OUTPUT}}"@,
        output,
    );
}

/// Beside the output stands the request that it belongs to, in full, and the output
/// stands there once. The words around the two depend on neither.
pub proof fn law_outputs_are_told_with_their_requests(request: RequestView, output: Seq<char>)
    requires
        !holds_placeholder(actions::summary_of(request)),
    ensures
        ({
            let s = TOOL_RESULT_PROMPT_TEMPLATE@;
            tool_result_prompt(request, output) == s.take(24) + actions::summary_of(request)
                + s.subrange(35, 45) + output + s.skip(55)
        }),
        text::occurs(tool_result_prompt(request, output), actions::summary_of(request)),
{
    let s = lemma_tool_result_template();
    let summary = actions::summary_of(request);
    lemma_requested(summary);
    let front = s.take(24) + summary + s.subrange(35, 45);
    lemma_piece(s, 0, 24);
    lemma_piece(s, 35, 45);
    assert(s.take(24) =~= s.subrange(0, 24));
    lemma_no_placeholder_in_both(s.take(24), summary);
    lemma_no_placeholder_in_both(s.take(24) + summary, s.subrange(35, 45));
    assert(front.last() == s.subrange(35, 45).last());
    lemma_rest_is_free(s, 'U', 55);
    lemma_filled(front, "{{OUTPUT}}"@, s.skip(55), 3, output);
    let told = tool_result_prompt(request, output);
    assert(told =~= s.take(24) + summary + (s.subrange(35, 45) + output + s.skip(55)));
    lemma_part_occurs(s.take(24), summary, s.subrange(35, 45) + output + s.skip(55));
}

#[verifier::spinoff_prover]
#[verifier::rlimit(40)]
proof fn lemma_initial_template() -> (s: Seq<char>)
    ensures
        s == INITIAL_USER_PROMPT_TEMPLATE@,
        s.len() == 181,
        s.subrange(56, 65) == "{{SKILL}}"@,
        s.subrange(86, 107) == "{{SOURCE_REFERENCES}}"@,
        s.subrange(132, 157) == "{{VALIDATOR_CONTEXT_MAP}}"@,
        s.subrange(159, 180) == "{{PERMISSION_PROMPT}}"@,
        text::is_free_of(s, '{', 0, 56),
        text::is_free_of(s, '{', 65, 86),
        text::is_free_of(s, '{', 107, 132),
        text::is_free_of(s, '{', 157, 159),
        text::is_free_of(s, 'K', 65, 181),
        text::is_free_of(s, 'U', 107, 181),
        text::is_free_of(s, 'V', 157, 181),
        text::is_free_of(s, '{', 180, 181),
        "{{SKILL}}"@[3] == 'K',
        "{{SOURCE_REFERENCES}}"@[4] == 'U',
        "{{VALIDATOR_CONTEXT_MAP}}"@[2] == 'V',
        opens_placeholder("{{SKILL}}"@, 0),
        opens_placeholder("{{SOURCE_REFERENCES}}"@, 0),
        opens_placeholder("{{VALIDATOR_CONTEXT_MAP}}"@, 0),
        opens_placeholder("{{PERMISSION_PROMPT}}"@, 0),
{
    let s = INITIAL_USER_PROMPT_TEMPLATE@;
    reveal_strlit(
        "Audit the project for this vulnerability skill.\n\
\n\
Skill:\n\
{{SKILL}}\n\
\n\
Source references:\n\
{{SOURCE_REFERENCES}}\n\
\n\
Validator context map:\n\
{{VALIDATOR_CONTEXT_MAP}}\n\
\n\
{{PERMISSION_PROMPT}}\n",
    );
    reveal_strlit("{{SKILL}}");
    reveal_strlit("{{SOURCE_REFERENCES}}");
    reveal_strlit("{{VALIDATOR_CONTEXT_MAP}}");
    reveal_strlit("{{PERMISSION_PROMPT}}");
    assert(s.subrange(56, 65) =~= "{{SKILL}}"@);
    assert(s.subrange(86, 107) =~= "{{SOURCE_REFERENCES}}"@);
    assert(s.subrange(132, 157) =~= "{{VALIDATOR_CONTEXT_MAP}}"@);
    assert(s.subrange(159, 180) =~= "{{PERMISSION_PROMPT}}"@);
    reveal_with_fuel(text::is_free_of, 60);
    assert(text::is_free_of(s, 'K', 141, 181));
    assert(text::is_free_of(s, 'K', 103, 181));
    assert(text::is_free_of(s, 'U', 141, 181));
    s
}

/// What a model is asked first holds the skill, the sources, the validators and the
/// permissions, each as one unabridged part and in this order, as long as the first
/// three hold nothing that could be taken for a placeholder.
pub proof fn law_first_prompts_hold_every_part(
    skill: Seq<char>,
    references: Seq<String>,
    validators: Seq<ValidatorContextEntry>,
    permissions: PermissionPromptSpec,
)
    requires
        !holds_placeholder(skill),
        !holds_placeholder(references_text(references)),
        !holds_placeholder(context_text(validators)),
    ensures
        ({
            let s = INITIAL_USER_PROMPT_TEMPLATE@;
            initial_prompt(skill, references, validators, permissions) == s.take(56) + skill
                + s.subrange(65, 86) + references_text(references) + s.subrange(107, 132)
                + context_text(validators) + s.subrange(157, 159) + permission_text(permissions)
                + s.skip(180)
        }),
{
    let s = lemma_initial_template();
    let listed = references_text(references);
    let mapped = context_text(validators);
    let allowed = permission_text(permissions);
    assert(s.take(56) =~= s.subrange(0, 56));
    lemma_piece(s, 0, 56);
    lemma_piece(s, 65, 86);
    lemma_piece(s, 107, 132);
    lemma_piece(s, 157, 159);
    let front1 = s.take(56);
    let front2 = front1 + skill + s.subrange(65, 86);
    let front3 = front2 + listed + s.subrange(107, 132);
    let front4 = front3 + mapped + s.subrange(157, 159);
    lemma_no_placeholder_in_both(front1, skill);
    lemma_no_placeholder_in_both(front1 + skill, s.subrange(65, 86));
    assert(front2.last() == s.subrange(65, 86).last());
    lemma_no_placeholder_in_both(front2, listed);
    lemma_no_placeholder_in_both(front2 + listed, s.subrange(107, 132));
    assert(front3.last() == s.subrange(107, 132).last());
    lemma_no_placeholder_in_both(front3, mapped);
    lemma_no_placeholder_in_both(front3 + mapped, s.subrange(157, 159));
    assert(front4.last() == s.subrange(157, 159).last());
    lemma_rest_is_free(s, 'K', 65);
    lemma_rest_is_free(s, 'U', 107);
    lemma_rest_is_free(s, 'V', 157);
    lemma_rest_is_free(s, '{', 180);
    assert(s =~= front1 + "{{SKILL}}"@ + s.skip(65));
    lemma_filled(front1, "{{SKILL}}"@, s.skip(65), 3, skill);
    assert(front1 + skill + s.skip(65) =~= front2 + "{{SOURCE_REFERENCES}}"@ + s.skip(107));
    lemma_filled(front2, "{{SOURCE_REFERENCES}}"@, s.skip(107), 4, listed);
    assert(front2 + listed + s.skip(107) =~= front3 + "{{VALIDATOR_CONTEXT_MAP}}"@ + s.skip(157));
    lemma_filled(front3, "{{VALIDATOR_CONTEXT_MAP}}"@, s.skip(157), 2, mapped);
    assert(front3 + mapped + s.skip(157) =~= front4 + "{{PERMISSION_PROMPT}}"@ + s.skip(180));
    lemma_filled(front4, "{{PERMISSION_PROMPT}}"@, s.skip(180), 0, allowed);
}

proof fn lemma_permission_template() -> (s: Seq<char>)
    ensures
        s == PERMISSION_PROMPT_TEMPLATE@,
        s.len() == 120,
        s.subrange(36, 56) == "{{ workspace_root }}"@,
        s.subrange(77, 99) == "{{ allowed_commands }}"@,
        s.subrange(102, 119) == "{{ scope_rules }}"@,
        text::is_free_of(s, '{', 0, 36),
        text::is_free_of(s, '{', 56, 77),
        text::is_free_of(s, '{', 99, 102),
        text::is_free_of(s, 'k', 56, 120),
        text::is_free_of(s, 'w', 99, 120),
        text::is_free_of(s, '{', 119, 120),
        "{{ workspace_root }}"@[6] == 'k',
        "{{ allowed_commands }}"@[7] == 'w',
        opens_placeholder("{{ workspace_root }}"@, 0),
        opens_placeholder("{{ allowed_commands }}"@, 0),
        opens_placeholder("{{ scope_rules }}"@, 0),
{
    let s = PERMISSION_PROMPT_TEMPLATE@;
    reveal_strlit(
        "Read permissions:\n\
- workspace root: {{ workspace_root }}\n\
- allowed commands: {{ allowed_commands }}\n\
- {{ scope_rules }}\n",
    );
    reveal_strlit("{{ workspace_root }}");
    reveal_strlit("{{ allowed_commands }}");
    reveal_strlit("{{ scope_rules }}");
    assert(s.subrange(36, 56) =~= "{{ workspace_root }}"@);
    assert(s.subrange(77, 99) =~= "{{ allowed_commands }}"@);
    assert(s.subrange(102, 119) =~= "{{ scope_rules }}"@);
    reveal_with_fuel(text::is_free_of, 70);
    s
}

/// What a model is told of its permissions holds the root, the commands and the
/// rules, each unabridged and in this order, as long as the first two hold nothing
/// that could be taken for a placeholder.
pub proof fn law_permissions_are_told_whole(prompt: PermissionPromptSpec)
    requires
        !holds_placeholder(prompt.workspace_root@),
        !holds_placeholder(text::joined(text::texts(prompt.allowed_commands@), ", "@)),
    ensures
        ({
            let s = PERMISSION_PROMPT_TEMPLATE@;
            permission_text(prompt) == s.take(36) + prompt.workspace_root@ + s.subrange(56, 77)
                + text::joined(text::texts(prompt.allowed_commands@), ", "@) + s.subrange(99, 102)
                + text::joined(text::texts(prompt.scope_rules@), "\n- "@) + s.skip(119)
        }),
{
    let s = lemma_permission_template();
    let root = prompt.workspace_root@;
    let commands = text::joined(text::texts(prompt.allowed_commands@), ", "@);
    let rules = text::joined(text::texts(prompt.scope_rules@), "\n- "@);
    assert(s.take(36) =~= s.subrange(0, 36));
    lemma_piece(s, 0, 36);
    lemma_piece(s, 56, 77);
    lemma_piece(s, 99, 102);
    let front1 = s.take(36);
    let front2 = front1 + root + s.subrange(56, 77);
    let front3 = front2 + commands + s.subrange(99, 102);
    lemma_no_placeholder_in_both(front1, root);
    lemma_no_placeholder_in_both(front1 + root, s.subrange(56, 77));
    assert(front2.last() == s.subrange(56, 77).last());
    lemma_no_placeholder_in_both(front2, commands);
    lemma_no_placeholder_in_both(front2 + commands, s.subrange(99, 102));
    assert(front3.last() == s.subrange(99, 102).last());
    lemma_rest_is_free(s, 'k', 56);
    lemma_rest_is_free(s, 'w', 99);
    lemma_rest_is_free(s, '{', 119);
    assert(s =~= front1 + "{{ workspace_root }}"@ + s.skip(56));
    lemma_filled(front1, "{{ workspace_root }}"@, s.skip(56), 6, root);
    assert(front1 + root + s.skip(56) =~= front2 + "{{ allowed_commands }}"@ + s.skip(99));
    lemma_filled(front2, "{{ allowed_commands }}"@, s.skip(99), 7, commands);
    assert(front2 + commands + s.skip(99) =~= front3 + "{{ scope_rules }}"@ + s.skip(119));
    lemma_filled(front3, "{{ scope_rules }}"@, s.skip(119), 0, rules);
}

proof fn lemma_one_more_line(lines: Seq<Seq<char>>, line: Seq<char>, sep: Seq<char>)
    ensures
        lines.len() > 0 ==> text::joined(lines.push(line), sep) == text::joined(lines, sep) + sep
            + line,
        text::joined(seq![line], sep) == line,
{
    text::law_joining_keeps_every_part(lines, seq![line], line, sep);
    assert(lines.push(line) =~= lines + seq![line]);
}

/// The list of sources has a line for each of them, in order.
pub proof fn law_every_source_has_its_line(references: Seq<String>, reference: String)
    ensures
        references_text(Seq::empty()) == "- (none)"@,
        references_text(seq![reference]) == "- "@ + reference@,
        references.len() > 0 ==> references_text(references.push(reference)) == references_text(
            references,
        ) + "\n"@ + ("- "@ + reference@),
{
    let lines = Seq::new(references.len(), |i: int| "- "@ + references[i]@);
    let line = "- "@ + reference@;
    lemma_one_more_line(lines, line, "\n"@);
    let longer = references.push(reference);
    assert(Seq::new(longer.len(), |i: int| "- "@ + longer[i]@) =~= lines.push(line));
    let one = seq![reference];
    assert(Seq::new(one.len(), |i: int| "- "@ + one[i]@) =~= seq![line]);
}

/// The list of validators has a part for each of them, in order: its name, its
/// source, and a line for each handler.
pub proof fn law_every_validator_has_its_part(
    validators: Seq<ValidatorContextEntry>,
    validator: ValidatorContextEntry,
)
    ensures
        context_text(Seq::empty()) == "- (none)"@,
        context_text(seq![validator]) == validator_text(validator),
        validators.len() > 0 ==> context_text(validators.push(validator)) == context_text(validators)
            + "\n"@ + validator_text(validator),
        text::starts_with(
            validator_text(validator),
            "- `"@ + validator.id@ + "`\n  - source: `"@ + validator.source_file@ + "`\n"@,
        ),
{
    let parts = Seq::new(validators.len(), |i: int| validator_text(validators[i]));
    lemma_one_more_line(parts, validator_text(validator), "\n"@);
    let longer = validators.push(validator);
    assert(Seq::new(longer.len(), |i: int| validator_text(longer[i])) =~= parts.push(
        validator_text(validator),
    ));
    let one = seq![validator];
    assert(Seq::new(one.len(), |i: int| validator_text(one[i])) =~= seq![
        validator_text(validator),
    ]);
    let head = "- `"@ + validator.id@ + "`\n  - source: `"@ + validator.source_file@ + "`\n"@;
    assert(validator_text(validator).subrange(0, head.len() as int) =~= head);
}

/// The part of a validator ends with the lines of its handlers, in order, and the
/// line of a handler lists its parameters in order, each with its type.
pub proof fn law_every_handler_has_its_line(
    validator: ValidatorContextEntry,
    handler: ValidatorHandlerContext,
    parameters: Seq<ValidatorParameterContext>,
    parameter: ValidatorParameterContext,
)
    ensures
        text::ends_with(
            validator_text(validator),
            text::joined(
                Seq::new(validator.handlers@.len(), |i: int| handler_text(validator.handlers@[i])),
                "\n"@,
            ),
        ),
        handler_text(handler) == "  - `"@ + handler.name@ + "("@ + parameters_text(
            handler.parameters@,
        ) + ")`"@,
        parameters_text(Seq::empty()).len() == 0,
        parameters_text(seq![parameter]) == parameter.name@ + ": "@ + parameter.type_text@,
        parameters.len() > 0 ==> parameters_text(parameters.push(parameter)) == parameters_text(
            parameters,
        ) + ", "@ + (parameter.name@ + ": "@ + parameter.type_text@),
{
    let lines = text::joined(
        Seq::new(validator.handlers@.len(), |i: int| handler_text(validator.handlers@[i])),
        "\n"@,
    );
    let whole = validator_text(validator);
    assert(whole.subrange(whole.len() - lines.len(), whole.len() as int) =~= lines);
    let parts = Seq::new(
        parameters.len(),
        |i: int| parameters[i].name@ + ": "@ + parameters[i].type_text@,
    );
    let part = parameter.name@ + ": "@ + parameter.type_text@;
    lemma_one_more_line(parts, part, ", "@);
    let longer = parameters.push(parameter);
    assert(Seq::new(longer.len(), |i: int| longer[i].name@ + ": "@ + longer[i].type_text@)
        =~= parts.push(part));
    let one = seq![parameter];
    assert(Seq::new(one.len(), |i: int| one[i].name@ + ": "@ + one[i].type_text@) =~= seq![part]);
}

} // verus!
