//! What a model's final answer says about a skill.
use crate::json::{self, Json, JsonView};
use crate::model::{
    FindingView, IterationView, MiniPrompt, PromptView, SkillIterationResult, TokenUsage,
    VulnerabilityFinding, VulnerabilitySkill,
};
use crate::model;
use crate::text;
use vstd::prelude::*;
use vstd::string::StringExecFns;

verus! {

/// The number, where it fits in `usize`.
pub open spec fn fitting(n: nat) -> Option<usize> {
    if n <= usize::MAX {
        Some(n as usize)
    } else {
        None
    }
}

/// The line number that a value writes, as a number or as a text.
pub open spec fn line_in(value: Option<JsonView>) -> Option<usize> {
    match value {
        Some(value) => match value.as_u64() {
            Some(n) => fitting(n as nat),
            None => match value.as_str() {
                Some(s) => match text::number_in(text::trimmed(s)) {
                    Some(n) => fitting(n),
                    None => None,
                },
                None => None,
            },
        },
        None => None,
    }
}

/// The file of a finding: its own, or that of its location.
pub open spec fn file_of(item: JsonView) -> Option<Seq<char>> {
    match text::unless_blank(json::str_in(item.get("file"@))) {
        Some(file) => Some(file),
        None => text::unless_blank(json::str_in(json::get_in(item.get("location"@), "file"@))),
    }
}

/// The line of a finding: its own, or that of its location.
pub open spec fn line_of(item: JsonView) -> Option<usize> {
    match line_in(item.get("line"@)) {
        Some(line) => Some(line),
        None => line_in(json::get_in(item.get("location"@), "line"@)),
    }
}

/// The texts among the items.
pub open spec fn texts_among(items: Seq<JsonView>) -> Seq<Seq<char>>
    decreases items.len(),
{
    if items.len() == 0 {
        Seq::empty()
    } else {
        let front = texts_among(items.drop_last());
        match items.last().as_str() {
            Some(s) => front.push(s),
            None => front,
        }
    }
}

/// The evidence of a finding.
pub open spec fn evidence_of(item: JsonView) -> Seq<Seq<char>> {
    match json::array_in(item.get("evidence"@)) {
        Some(items) => texts_among(items),
        None => Seq::empty(),
    }
}

/// The finding that an item of the answer reports. Where it names no severity,
/// it has that of its skill.
pub open spec fn finding_of(item: JsonView, severity: Seq<char>) -> FindingView {
    FindingView {
        title: text::or_text(json::str_in(item.get("title"@)), "Untitled finding"@),
        severity: text::or_text(json::str_in(item.get("severity"@)), severity),
        summary: text::or_text(json::str_in(item.get("summary"@)), ""@),
        evidence: evidence_of(item),
        recommendation: text::or_text(json::str_in(item.get("recommendation"@)), ""@),
        file: file_of(item),
        line: line_of(item),
    }
}

/// The findings of an answer, one for each item.
pub open spec fn findings_of(answer: JsonView, severity: Seq<char>) -> Seq<FindingView> {
    match json::array_in(answer.get("findings"@)) {
        Some(items) => Seq::new(items.len(), |i: int| finding_of(items[i], severity)),
        None => Seq::empty(),
    }
}

/// The prompt that an answer asks to go on with.
pub open spec fn next_prompt_of(answer: JsonView, skill_id: Seq<char>) -> Option<PromptView> {
    match text::unless_blank(json::str_in(answer.get("next_prompt"@))) {
        Some(text) => Some(PromptView { skill_id, text }),
        None => None,
    }
}

/// The outcome of a skill, by the model's answer.
pub open spec fn iteration_of(
    skill_id: Seq<char>,
    severity: Seq<char>,
    answer: JsonView,
    usage: TokenUsage,
) -> IterationView {
    IterationView {
        skill_id,
        status: text::or_text(json::str_in(answer.get("status"@)), "completed"@),
        findings: findings_of(answer, severity),
        next_prompt: next_prompt_of(answer, skill_id),
        token_usage: usage,
    }
}

/// The line number that a value writes, as a number or as a text.
pub fn parse_line_number(value: Option<&Json>) -> (r: Option<usize>)
    ensures
        r == line_in(json::opt_view(value)),
{
    match value {
        Some(value) => match value.as_u64() {
            Some(n) => if n <= usize::MAX as u64 {
                Some(n as usize)
            } else {
                None
            },
            None => match value.as_str() {
                Some(s) => text::parse_usize(text::trim(s)),
                None => None,
            },
        },
        None => None,
    }
}

fn strings_among(items: &Vec<Json>) -> (r: Vec<String>)
    ensures
        text::texts(r@) == texts_among(json::views_of(items@)),
{
    let ghost all = json::views_of(items@);
    let mut r: Vec<String> = Vec::new();
    let mut i: usize = 0;
    proof {
        json::lemma_views_of(items@);
        assert(text::texts(r@) =~= Seq::empty());
    }
    while i < items.len()
        invariant
            i <= items.len(),
            all.len() == items.len(),
            forall|k: int| 0 <= k < items.len() ==> #[trigger] all[k] == items@[k]@,
            text::texts(r@) == texts_among(all.take(i as int)),
        decreases items.len() - i,
    {
        assert(all.take(i + 1).drop_last() =~= all.take(i as int));
        assert(all.take(i + 1).last() == items@[i as int]@);
        let ghost before = r@;
        match items[i].as_str() {
            Some(s) => {
                r.push(s.to_owned());
                assert(text::texts(r@) =~= text::texts(before).push(s@));
            },
            None => {},
        }
        i += 1;
    }
    assert(all.take(i as int) =~= all);
    r
}

fn read_finding(item: &Json, severity: &str) -> (r: VulnerabilityFinding)
    ensures
        r@ == finding_of(item@, severity@),
{
    let file = match text::owned(text::spare_blank(item.get_str("file"))) {
        Some(file) => Some(file),
        None => text::owned(text::spare_blank(item.get2_str("location", "file"))),
    };
    let line = match parse_line_number(item.get("line")) {
        Some(line) => Some(line),
        None => parse_line_number(item.get2("location", "line")),
    };
    let evidence = match item.get_array("evidence") {
        Some(items) => strings_among(items),
        None => Vec::new(),
    };
    let r = VulnerabilityFinding {
        title: text::or_other(item.get_str("title"), "Untitled finding").to_owned(),
        severity: text::or_other(item.get_str("severity"), severity).to_owned(),
        summary: text::or_other(item.get_str("summary"), "").to_owned(),
        evidence,
        recommendation: text::or_other(item.get_str("recommendation"), "").to_owned(),
        file,
        line,
    };
    assert(text::texts(r.evidence@) =~= evidence_of(item@));
    r
}

/// The outcome of a skill, by the model's answer.
pub fn iteration_from_parsed(
    skill: &VulnerabilitySkill,
    parsed: &Json,
    token_usage: TokenUsage,
) -> (r: SkillIterationResult)
    ensures
        r@ == iteration_of(skill.id@, skill.severity@, parsed@, token_usage),
{
    let mut findings: Vec<VulnerabilityFinding> = Vec::new();
    match parsed.get_array("findings") {
        Some(items) => {
            let ghost all = json::views_of(items@);
            proof {
                json::lemma_views_of(items@);
            }
            let mut i: usize = 0;
            while i < items.len()
                invariant
                    i <= items.len(),
                    all.len() == items.len(),
                    forall|k: int| 0 <= k < items.len() ==> #[trigger] all[k] == items@[k]@,
                    findings.len() == i,
                    forall|k: int|
                        0 <= k < i ==> #[trigger] findings@[k]@ == finding_of(
                            all[k],
                            skill.severity@,
                        ),
                decreases items.len() - i,
            {
                findings.push(read_finding(&items[i], &skill.severity));
                i += 1;
            }
        },
        None => {},
    }
    assert(model::finding_views(findings@) =~= findings_of(parsed@, skill.severity@));
    let next_prompt = match text::owned(text::spare_blank(parsed.get_str("next_prompt"))) {
        Some(text) => Some(MiniPrompt { skill_id: skill.id.clone(), text }),
        None => None,
    };
    SkillIterationResult {
        skill_id: skill.id.clone(),
        status: text::or_other(parsed.get_str("status"), "completed").to_owned(),
        findings,
        next_prompt,
        token_usage,
    }
}

/// A labelled figure, where it is present and above zero.
pub open spec fn usage_part(label: Seq<char>, figure: Option<u64>) -> Seq<Seq<char>> {
    match figure {
        Some(n) => if n > 0 {
            seq![label + text::decimal(n as nat)]
        } else {
            Seq::empty()
        },
        None => Seq::empty(),
    }
}

/// The usage in one line. Cache writes, which cost more than other input, are
/// named apart from cache reads.
pub open spec fn usage_line(usage: TokenUsage) -> Seq<char> {
    if usage == TokenUsage::nothing() {
        "no token usage reported"@
    } else {
        text::joined(
            seq![
                "in: "@ + text::decimal(usage.input_tokens as nat),
                "out: "@ + text::decimal(usage.output_tokens as nat),
            ] + usage_part("cached: "@, usage.cache_read_input_tokens) + usage_part(
                "cache_write: "@,
                usage.cache_creation_input_tokens,
            ) + usage_part("reasoning: "@, usage.reasoning_tokens),
            ", "@,
        )
    }
}

fn push_usage_part(parts: &mut Vec<String>, label: &str, figure: Option<u64>)
    ensures
        text::texts(final(parts)@) == text::texts(old(parts)@) + usage_part(label@, figure),
{
    match figure {
        Some(n) => if n > 0 {
            parts.push(label.to_owned().concat(&text::decimal_text(n)));
        },
        None => {},
    }
    assert(text::texts(parts@) =~= text::texts(old(parts)@) + usage_part(label@, figure));
}

/// The usage in one line.
pub fn format_token_usage_inline(usage: &TokenUsage) -> (r: String)
    ensures
        r@ == usage_line(*usage),
{
    if usage.is_empty() {
        return "no token usage reported".to_owned();
    }
    let mut parts: Vec<String> = Vec::new();
    parts.push("in: ".to_owned().concat(&text::decimal_text(usage.input_tokens)));
    parts.push("out: ".to_owned().concat(&text::decimal_text(usage.output_tokens)));
    assert(text::texts(parts@) =~= seq![
        "in: "@ + text::decimal(usage.input_tokens as nat),
        "out: "@ + text::decimal(usage.output_tokens as nat),
    ]);
    push_usage_part(&mut parts, "cached: ", usage.cache_read_input_tokens);
    push_usage_part(&mut parts, "cache_write: ", usage.cache_creation_input_tokens);
    push_usage_part(&mut parts, "reasoning: ", usage.reasoning_tokens);
    text::join(&parts, ", ")
}

/// An answer yields one finding for each item that it lists, whatever the item
/// holds, and the outcome carries the usage unchanged.
pub proof fn law_no_listed_item_is_lost(
    skill_id: Seq<char>,
    severity: Seq<char>,
    answer: JsonView,
    items: Seq<JsonView>,
    usage: TokenUsage,
)
    requires
        answer.get("findings"@) == Some(JsonView::Array(items)),
    ensures
        iteration_of(skill_id, severity, answer, usage).findings.len() == items.len(),
        forall|i: int|
            0 <= i < items.len() ==> #[trigger] iteration_of(
                skill_id,
                severity,
                answer,
                usage,
            ).findings[i] == finding_of(items[i], severity),
        iteration_of(skill_id, severity, answer, usage).token_usage == usage,
{
}

/// A finding says under each name what its item says under that name.
pub proof fn law_findings_say_what_their_items_say(
    skill_id: Seq<char>,
    severity: Seq<char>,
    answer: JsonView,
    items: Seq<JsonView>,
    usage: TokenUsage,
    i: int,
    words: Seq<char>,
)
    requires
        answer.get("findings"@) == Some(JsonView::Array(items)),
        0 <= i < items.len(),
    ensures
        ({
            let finding = iteration_of(skill_id, severity, answer, usage).findings[i];
            let said = Some(JsonView::Text(words));
            &&& items[i].get("title"@) == said ==> finding.title == words
            &&& items[i].get("severity"@) == said ==> finding.severity == words
            &&& items[i].get("summary"@) == said ==> finding.summary == words
            &&& items[i].get("recommendation"@) == said ==> finding.recommendation == words
        }),
{
}

/// What an item leaves out, or says in no text, is filled in: the title by a stand-in,
/// the severity by that of the skill, the rest by nothing.
pub proof fn law_gaps_in_findings_are_filled(
    skill_id: Seq<char>,
    severity: Seq<char>,
    answer: JsonView,
    items: Seq<JsonView>,
    usage: TokenUsage,
    i: int,
)
    requires
        answer.get("findings"@) == Some(JsonView::Array(items)),
        0 <= i < items.len(),
    ensures
        ({
            let finding = iteration_of(skill_id, severity, answer, usage).findings[i];
            let item = items[i];
            &&& !(item.get("title"@) matches Some(JsonView::Text(_))) ==> finding.title
                == "Untitled finding"@
            &&& !(item.get("severity"@) matches Some(JsonView::Text(_))) ==> finding.severity
                == severity
            &&& !(item.get("summary"@) matches Some(JsonView::Text(_))) ==> finding.summary.len()
                == 0
            &&& !(item.get("recommendation"@) matches Some(JsonView::Text(_)))
                ==> finding.recommendation.len() == 0
            &&& !(item.get("evidence"@) matches Some(JsonView::Array(_))) ==> finding.evidence.len()
                == 0
        }),
{
    reveal_strlit("");
}

proof fn lemma_texts_among(items: Seq<JsonView>, words: Seq<Seq<char>>)
    requires
        items.len() == words.len(),
        forall|k: int| 0 <= k < items.len() ==> #[trigger] items[k] == JsonView::Text(words[k]),
    ensures
        texts_among(items) == words,
    decreases items.len(),
{
    if items.len() > 0 {
        assert forall|k: int| 0 <= k < items.len() - 1 implies #[trigger] items.drop_last()[k]
            == JsonView::Text(words.drop_last()[k]) by {
            assert(items[k] == JsonView::Text(words[k]));
        }
        lemma_texts_among(items.drop_last(), words.drop_last());
        assert(items[items.len() - 1] == JsonView::Text(words[items.len() - 1]));
        assert(words.drop_last().push(words.last()) =~= words);
    } else {
        assert(words =~= Seq::empty());
    }
}

/// The evidence of a finding is the row of texts that its item lists as evidence,
/// each as it stands and in its place.
pub proof fn law_evidence_is_kept_in_order(
    item: JsonView,
    severity: Seq<char>,
    listed: Seq<JsonView>,
    words: Seq<Seq<char>>,
)
    requires
        item.get("evidence"@) == Some(JsonView::Array(listed)),
        listed.len() == words.len(),
        forall|k: int| 0 <= k < listed.len() ==> #[trigger] listed[k] == JsonView::Text(words[k]),
    ensures
        finding_of(item, severity).evidence == words,
{
    lemma_texts_among(listed, words);
}

/// What is listed as evidence and is no text is passed over, and nothing else is:
/// the evidence of two rows is that of the first and then that of the second.
pub proof fn law_only_texts_are_evidence(left: Seq<JsonView>, right: Seq<JsonView>, item: JsonView)
    ensures
        texts_among(left + right) == texts_among(left) + texts_among(right),
        !(item is Text) ==> texts_among(seq![item]).len() == 0,
        item matches JsonView::Text(words) ==> texts_among(seq![item]) == seq![words],
    decreases right.len(),
{
    assert(seq![item].drop_last() =~= Seq::empty());
    assert(texts_among(Seq::<JsonView>::empty()).len() == 0);
    if item is Text {
        assert(texts_among(seq![item]) =~= seq![item->Text_0]);
    }
    if right.len() > 0 {
        law_only_texts_are_evidence(left, right.drop_last(), item);
        assert((left + right).drop_last() =~= left + right.drop_last());
        assert((left + right).last() == right.last());
        assert(texts_among(left + right) =~= texts_among(left) + texts_among(right));
    } else {
        assert(left + right =~= left);
        assert(texts_among(left) + texts_among(right) =~= texts_among(left));
    }
}

/// A finding lies in the file that its item names, or else in the one that the
/// item's location names; a blank name counts as none.
pub proof fn law_findings_lie_where_their_items_say(
    item: JsonView,
    severity: Seq<char>,
    location: JsonView,
    file: Seq<char>,
)
    requires
        !text::is_blank(file),
    ensures
        item.get("file"@) == Some(JsonView::Text(file)) ==> finding_of(item, severity).file == Some(
            file,
        ),
        (!(item.get("file"@) matches Some(JsonView::Text(own)) && !text::is_blank(own)))
            && item.get("location"@) == Some(location) && location.get("file"@) == Some(
            JsonView::Text(file),
        ) ==> finding_of(item, severity).file == Some(file),
        (!(item.get("file"@) matches Some(JsonView::Text(own)) && !text::is_blank(own)))
            && item.get("location"@) is None ==> finding_of(item, severity).file is None,
{
}

/// A finding lies in the line that its item names, as a number or as the text of
/// one, or else in the one that the item's location names.
pub proof fn law_findings_lie_in_the_line_named(
    item: JsonView,
    severity: Seq<char>,
    location: JsonView,
    n: nat,
)
    requires
        n <= usize::MAX,
    ensures
        ({
            let line = finding_of(item, severity).line;
            let number = Some(JsonView::Int(n as int));
            let written = Some(JsonView::Text(text::decimal(n)));
            &&& item.get("line"@) == number || item.get("line"@) == written ==> line == Some(
                n as usize,
            )
            &&& item.get("line"@) is None && item.get("location"@) == Some(location) && (
            location.get("line"@) == number || location.get("line"@) == written) ==> line == Some(
                n as usize,
            )
            &&& item.get("line"@) is None && item.get("location"@) is None ==> line is None
        }),
{
    text::law_written_numbers_are_read_back(n);
    let written = text::decimal(n);
    assert('0' <= written[0] <= '9' && '0' <= written.last() <= '9');
    text::law_trimming_takes_the_padding(Seq::empty(), written, Seq::empty());
    assert(Seq::<char>::empty() + written + Seq::<char>::empty() =~= written);
}

/// The outcome of a skill is that skill's, with the status that the answer gives,
/// or as completed where it gives none, and with the prompt that it asks to go on
/// with, for the same skill.
pub proof fn law_outcomes_say_what_the_answer_says(
    skill_id: Seq<char>,
    severity: Seq<char>,
    answer: JsonView,
    usage: TokenUsage,
    words: Seq<char>,
)
    ensures
        ({
            let outcome = iteration_of(skill_id, severity, answer, usage);
            let said = Some(JsonView::Text(words));
            &&& outcome.skill_id == skill_id
            &&& outcome.token_usage == usage
            &&& answer.get("status"@) == said ==> outcome.status == words
            &&& !(answer.get("status"@) matches Some(JsonView::Text(_))) ==> outcome.status
                == "completed"@
            &&& answer.get("next_prompt"@) == said && !text::is_blank(words)
                ==> outcome.next_prompt == Some(PromptView { skill_id, text: words })
            &&& answer.get("next_prompt"@) == said && text::is_blank(words)
                ==> outcome.next_prompt is None
            &&& !(answer.get("next_prompt"@) matches Some(JsonView::Text(_)))
                ==> outcome.next_prompt is None
            &&& !(answer.get("findings"@) matches Some(JsonView::Array(_)))
                ==> outcome.findings.len() == 0
        }),
{
}

/// What one more figure adds to the line on a usage.
pub open spec fn figure_note(label: Seq<char>, figure: Option<u64>) -> Seq<char> {
    match figure {
        Some(n) => if n > 0 {
            ", "@ + label + text::decimal(n as nat)
        } else {
            Seq::empty()
        },
        None => Seq::empty(),
    }
}

proof fn lemma_one_more_figure(parts: Seq<Seq<char>>, label: Seq<char>, figure: Option<u64>)
    requires
        parts.len() > 0,
    ensures
        text::joined(parts + usage_part(label, figure), ", "@) == text::joined(parts, ", "@)
            + figure_note(label, figure),
{
    let more = usage_part(label, figure);
    if more.len() > 0 {
        text::law_joining_keeps_every_part(parts, more, more[0], ", "@);
        assert(more =~= seq![more[0]]);
        assert(text::joined(parts + more, ", "@) =~= text::joined(parts, ", "@) + figure_note(
            label,
            figure,
        ));
    } else {
        assert(parts + more =~= parts);
        assert(text::joined(parts, ", "@) + figure_note(label, figure) =~= text::joined(
            parts,
            ", "@,
        ));
    }
}

/// The line on a usage gives input and output first, then what was read from the
/// cache, written to it and spent on reasoning, each where there is any.
pub proof fn law_usage_lines_give_every_figure(usage: TokenUsage)
    requires
        usage != TokenUsage::nothing(),
    ensures
        usage_line(usage) == "in: "@ + text::decimal(usage.input_tokens as nat) + ", "@ + "out: "@
            + text::decimal(usage.output_tokens as nat) + figure_note(
            "cached: "@,
            usage.cache_read_input_tokens,
        ) + figure_note("cache_write: "@, usage.cache_creation_input_tokens) + figure_note(
            "reasoning: "@,
            usage.reasoning_tokens,
        ),
{
    let input = "in: "@ + text::decimal(usage.input_tokens as nat);
    let output = "out: "@ + text::decimal(usage.output_tokens as nat);
    let both = seq![input, output];
    assert(both =~= seq![input] + seq![output]);
    text::law_joining_keeps_every_part(seq![input], seq![output], input, ", "@);
    text::law_joining_keeps_every_part(seq![input], seq![output], output, ", "@);
    let cached = usage_part("cached: "@, usage.cache_read_input_tokens);
    let made = usage_part("cache_write: "@, usage.cache_creation_input_tokens);
    lemma_one_more_figure(both, "cached: "@, usage.cache_read_input_tokens);
    lemma_one_more_figure(both + cached, "cache_write: "@, usage.cache_creation_input_tokens);
    lemma_one_more_figure(both + cached + made, "reasoning: "@, usage.reasoning_tokens);
    assert(input + ", "@ + output =~= "in: "@ + text::decimal(usage.input_tokens as nat) + ", "@
        + "out: "@ + text::decimal(usage.output_tokens as nat));
}

} // verus!
